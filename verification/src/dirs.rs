//! Shared directory helpers for first-party plugins.
use vstd::prelude::*;

use crate::host::{JoinedPath, PathModel};

verus! {

/// The directory for clips under the data directory `data_dir`, or under the current one.
pub open spec fn clips_dir_of(data_dir: Option<Seq<char>>) -> PathModel {
    PathModel {
        base: match data_dir {
            Some(d) => d,
            None => "."@,
        },
        parts: seq!["clips"@],
    }
}

/// Clips go into one directory of their own under the data directory, whatever that is; the current
/// directory takes its place only where there is none.
pub proof fn law_clips_dir(data_dir: Seq<char>)
    ensures
        clips_dir_of(Some(data_dir)).base == data_dir,
        clips_dir_of(None).base == "."@,
        clips_dir_of(Some(data_dir)).parts == clips_dir_of(None).parts,
        clips_dir_of(None).parts == seq!["clips"@],
{
}

/// Where clip-export drops finished clips. Falls back to a relative `./clips` if the
/// OS-conventional data dir can't be resolved.
pub fn clips_dir(data_dir: Option<String>) -> (r: JoinedPath)
    ensures
        r.deep_view() == clips_dir_of(data_dir.deep_view()),
{
    let base = match data_dir {
        Some(d) => d,
        None => ".".to_owned(),
    };
    let r = JoinedPath::of(base.as_str()).with("clips");
    assert(r.deep_view() == (PathModel { base: base@, parts: seq!["clips"@] }));
    r
}

} // verus!
