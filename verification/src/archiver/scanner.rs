//! Scans of channels: how the command is called, and which videos its answer lists.
use vstd::prelude::*;

use crate::archiver::downloader::{ToolModel, ToolOutcome};
use crate::archiver::types::{ArchiverEvent, EventModel, VideoEntry, VideoModel};
use crate::json;
use crate::json::{Json, JsonModel};
use crate::text;

verus! {

/// What yt-dlp is called with to scan a channel. `archive` is the file that tracks what has been
/// downloaded, if it exists.
pub open spec fn scan_args_of(
    url: Seq<char>,
    cookies: Option<Seq<char>>,
    archive: Option<Seq<char>>,
) -> Seq<Seq<char>> {
    let base = seq![
        "--flat-playlist"@,
        "--skip-download"@,
        "--dump-single-json"@,
        "--no-warnings"@,
    ];
    let with_cookies = match cookies {
        Some(c) => base.push("--cookies"@).push(c),
        None => base,
    };
    match archive {
        Some(a) => with_cookies.push("--download-archive"@).push(a).push(url),
        None => with_cookies.push(url),
    }
}

/// What yt-dlp is called with to scan a channel.
pub fn scan_args(url: &str, cookies: &Option<String>, archive: &Option<String>) -> (r: Vec<String>)
    ensures
        r.deep_view() == scan_args_of(url@, cookies.deep_view(), archive.deep_view()),
{
    let list = ["--flat-playlist", "--skip-download", "--dump-single-json", "--no-warnings"];
    let mut out = text::owned(&list);
    assert(out.deep_view() == seq![
        "--flat-playlist"@,
        "--skip-download"@,
        "--dump-single-json"@,
        "--no-warnings"@,
    ]);
    match cookies {
        Some(c) => {
            text::push_copy(&mut out, "--cookies");
            text::push_copy(&mut out, c.as_str());
        },
        None => {},
    }
    match archive {
        Some(a) => {
            text::push_copy(&mut out, "--download-archive");
            text::push_copy(&mut out, a.as_str());
        },
        None => {},
    }
    text::push_copy(&mut out, url);
    out
}

/// The playlist of an entry: its title, or its name.
pub open spec fn playlist_of(entry: JsonModel) -> Option<Seq<char>> {
    match entry.field("playlist_title"@).as_text() {
        Some(t) => Some(t),
        None => entry.field("playlist"@).as_text(),
    }
}

/// The video that an entry describes; none without an id.
pub open spec fn video_of(entry: JsonModel) -> Option<VideoModel> {
    match entry.field("id"@).as_text() {
        Some(video_id) => Some(
            VideoModel {
                video_id,
                title: entry.text_or("title"@, "Untitled"@),
                upload_date: entry.text_or("upload_date"@, ""@),
                duration_secs: entry.field("duration"@).as_number(),
                playlist: playlist_of(entry),
                downloaded: false,
            },
        ),
        None => None,
    }
}

/// The videos that entries describe, in order.
pub open spec fn videos_of(entries: Seq<JsonModel>) -> Seq<VideoModel>
    decreases entries.len(),
{
    if entries.len() == 0 {
        Seq::empty()
    } else {
        match video_of(entries.last()) {
            Some(v) => videos_of(entries.drop_last()).push(v),
            None => videos_of(entries.drop_last()),
        }
    }
}

/// The video that an entry describes; none without an id.
pub fn read_video(entry: &Json) -> (r: Option<VideoEntry>)
    ensures
        r.deep_view() == video_of(entry.deep_view()),
{
    match entry.text_of("id") {
        Some(video_id) => {
            let playlist = match entry.text_of("playlist_title") {
                Some(t) => Some(t),
                None => entry.text_of("playlist"),
            };
            Some(
                VideoEntry {
                    video_id,
                    title: entry.text_or("title", "Untitled"),
                    upload_date: entry.text_or("upload_date", ""),
                    duration_secs: entry.number_of("duration"),
                    playlist,
                    downloaded: false,
                },
            )
        },
        None => None,
    }
}

/// The videos that a scan's document lists.
pub fn read_videos(doc: &Json) -> (r: Vec<VideoEntry>)
    ensures
        r.deep_view() == videos_of(doc.deep_view().list_or_none("entries"@)),
{
    let mut out: Vec<VideoEntry> = Vec::new();
    let ghost all = doc.deep_view().list_or_none("entries"@);
    assert(out.deep_view() == videos_of(Seq::empty()));
    match doc.field("entries") {
        Some(Json::List(items)) => {
            proof {
                json::lemma_items(items@);
                assert(all.take(0) == Seq::<JsonModel>::empty());
            }
            let mut i: usize = 0;
            while i < items.len()
                invariant
                    i <= items.len(),
                    all == json::items_model(items@),
                    all.len() == items.len(),
                    out.deep_view() == videos_of(all.take(i as int)),
                decreases items.len() - i,
            {
                proof {
                    json::lemma_items(items@);
                    assert(all.take(i + 1).drop_last() == all.take(i as int));
                    assert(all.take(i + 1).last() == items[i as int].model());
                }
                match read_video(&items[i]) {
                    Some(v) => {
                        let ghost before = out.deep_view();
                        let ghost m = v.deep_view();
                        out.push(v);
                        assert(out.deep_view() == before.push(m));
                    },
                    None => {},
                }
                i = i + 1;
            }
            assert(all.take(items.len() as int) == all);
        },
        _ => {},
    }
    out
}

/// What the outcome of a scan means: the videos it lists, or a message.
pub open spec fn scan_result_of(outcome: ToolModel) -> Result<Seq<VideoModel>, Seq<char>> {
    match outcome {
        ToolModel::Unstarted(e) => Err(e),
        ToolModel::Exited { success, stdout, stderr } => if !success {
            Err("yt-dlp scan failed: "@ + text::at_most(stderr, 300))
        } else {
            match json::json_document(stdout) {
                Ok(doc) => Ok(videos_of(doc.list_or_none("entries"@))),
                Err(e) => Err(e),
            }
        },
    }
}

/// What the outcome of a scan means.
pub fn scan_result(outcome: ToolOutcome) -> (r: Result<Vec<VideoEntry>, String>)
    ensures
        match (r, scan_result_of(outcome.deep_view())) {
            (Ok(v), Ok(m)) => v.deep_view() == m,
            (Err(e), Err(m)) => e@ == m,
            _ => false,
        },
{
    match outcome {
        ToolOutcome::Unstarted(e) => Err(e),
        ToolOutcome::Exited { success, stdout, stderr } => {
            if !success {
                let shown = text::first_chars(stderr.as_str(), 300);
                return Err(text::cat("yt-dlp scan failed: ", shown.as_str()));
            }
            match json::parse(stdout.as_str()) {
                Ok(doc) => Ok(read_videos(&doc)),
                Err(e) => Err(e),
            }
        },
    }
}

/// What a scan reports.
pub open spec fn scan_report(
    job_id: u128,
    result: Result<Seq<VideoModel>, Seq<char>>,
) -> EventModel {
    match result {
        Ok(videos) => EventModel::ScanComplete { job_id, videos },
        Err(e) => EventModel::JobError { job_id, error: "Scan failed: "@ + e },
    }
}

/// What a scan reports.
pub fn scan_event(job_id: u128, result: Result<Vec<VideoEntry>, String>) -> (r: ArchiverEvent)
    ensures
        r.deep_view() == scan_report(
            job_id,
            match result {
                Ok(v) => Ok(v.deep_view()),
                Err(e) => Err(e@),
            },
        ),
{
    match result {
        Ok(videos) => ArchiverEvent::ScanComplete { job_id, videos },
        Err(e) => ArchiverEvent::JobError { job_id, error: text::cat("Scan failed: ", e.as_str()) },
    }
}

/// Every listed video has its id from an entry, and no scan lists more videos than it has entries.
pub proof fn law_videos_from_entries(entries: Seq<JsonModel>)
    ensures
        videos_of(entries).len() <= entries.len(),
        forall|k: int|
            0 <= k < videos_of(entries).len() ==> exists|i: int|
                0 <= i < entries.len() && video_of(#[trigger] entries[i]) == Some(
                    #[trigger] videos_of(entries)[k],
                ),
    decreases entries.len(),
{
    if entries.len() > 0 {
        let t = entries.drop_last();
        law_videos_from_entries(t);
        let before = videos_of(t);
        let now = videos_of(entries);
        assert forall|k: int| 0 <= k < now.len() implies exists|i: int|
            0 <= i < entries.len() && video_of(#[trigger] entries[i]) == Some(
                #[trigger] now[k],
            ) by {
            if k < before.len() {
                assert(now[k] == before[k]);
                let i = choose|i: int|
                    0 <= i < t.len() && video_of(#[trigger] t[i]) == Some(before[k]);
                assert(entries[i] == t[i]);
            } else {
                assert(video_of(entries[entries.len() - 1]) == Some(now[k]));
            }
        }
    }
}

/// Whether `v` is the video that `entry` describes: the id, the title or else "Untitled", the date
/// or else none, the length if it is a number, and the playlist by its title or else by its name.
pub open spec fn describes(entry: JsonModel, v: VideoModel) -> bool {
    &&& entry.field("id"@) == JsonModel::Text(v.video_id)
    &&& match entry.field("title"@) {
        JsonModel::Text(t) => v.title == t,
        _ => v.title == "Untitled"@,
    }
    &&& match entry.field("upload_date"@) {
        JsonModel::Text(d) => v.upload_date == d,
        _ => v.upload_date == ""@,
    }
    &&& match entry.field("duration"@) {
        JsonModel::Number(n) => v.duration_secs == n,
        _ => v.duration_secs is None,
    }
    &&& match (entry.field("playlist_title"@), entry.field("playlist"@)) {
        (JsonModel::Text(t), _) => v.playlist == Some(t),
        (_, JsonModel::Text(p)) => v.playlist == Some(p),
        _ => v.playlist is None,
    }
    &&& !v.downloaded
}

/// A scan lists a video for every entry that has an id, and for no other, in the order of the
/// entries, each as its entry describes it.
pub proof fn law_every_entry_listed(entries: Seq<JsonModel>)
    ensures
        ({
            let with_id = entries.filter(|e: JsonModel| e.field("id"@) is Text);
            &&& videos_of(entries).len() == with_id.len()
            &&& forall|k: int|
                0 <= k < with_id.len() ==> describes(
                    #[trigger] with_id[k],
                    videos_of(entries)[k],
                )
        }),
    decreases entries.len(),
{
    reveal(Seq::filter);
    let has_id = |e: JsonModel| e.field("id"@) is Text;
    if entries.len() > 0 {
        let t = entries.drop_last();
        law_every_entry_listed(t);
        let before = t.filter(has_id);
        let now = entries.filter(has_id);
        assert forall|k: int| 0 <= k < now.len() implies describes(
            #[trigger] now[k],
            videos_of(entries)[k],
        ) by {
            if k < before.len() {
                assert(now[k] == before[k]);
                assert(videos_of(entries)[k] == videos_of(t)[k]);
            }
        }
    }
}

/// Each part of a list of entries is read by itself: what two lists have, one behind the other, is
/// what each has.
pub proof fn law_videos_add(a: Seq<JsonModel>, b: Seq<JsonModel>)
    ensures
        videos_of(a + b) == videos_of(a) + videos_of(b),
    decreases b.len(),
{
    if b.len() == 0 {
        assert(a + b == a);
        assert(videos_of(a) + videos_of(b) == videos_of(a));
    } else {
        law_videos_add(a, b.drop_last());
        assert((a + b).drop_last() == a + b.drop_last());
        assert((a + b).last() == b.last());
        assert(videos_of(a + b) == videos_of(a) + videos_of(b));
    }
}

/// A scan reports the videos of its document's entries exactly when the command succeeded and wrote
/// a document. Else it reports an error, for the same job: why the command did not run, the start
/// of what it complained of, or why there was no document.
pub proof fn law_scan_outcome(job_id: u128, outcome: ToolModel)
    ensures
        ({
            let report = scan_report(job_id, scan_result_of(outcome));
            match outcome {
                ToolModel::Unstarted(e) => report == (EventModel::JobError {
                    job_id,
                    error: "Scan failed: "@ + e,
                }),
                ToolModel::Exited { success: false, stdout, stderr } => exists|n: int|
                    {
                        &&& 0 <= n <= stderr.len()
                        &&& n == 300 || n == stderr.len() && n < 300
                        &&& report == (EventModel::JobError {
                            job_id,
                            error: "Scan failed: "@ + ("yt-dlp scan failed: "@
                                + #[trigger] stderr.take(n)),
                        })
                    },
                ToolModel::Exited { success: true, stdout, stderr } => match json::json_document(
                    stdout,
                ) {
                    Ok(doc) => report == (EventModel::ScanComplete {
                        job_id,
                        videos: match doc.field("entries"@) {
                            JsonModel::List(items) => videos_of(items),
                            _ => Seq::empty(),
                        },
                    }),
                    Err(e) => report == (EventModel::JobError {
                        job_id,
                        error: "Scan failed: "@ + e,
                    }),
                },
            }
        }),
{
    if let ToolModel::Exited { success, stdout, stderr } = outcome {
        text::law_at_most(stderr, 300);
        let n = text::at_most(stderr, 300).len() as int;
        assert(stderr.take(n) == text::at_most(stderr, 300));
        assert(stderr.take(stderr.len() as int) == stderr);
    }
}

/// The command is called for the channel's address, which comes last, and lists without
/// downloading. Cookies and the file of what has been downloaded are handed on when there are any,
/// and only then.
pub proof fn law_scan_call(url: Seq<char>, cookies: Seq<char>, archive: Seq<char>)
    ensures
        forall|c: Option<Seq<char>>, a: Option<Seq<char>>|
            {
                let args = #[trigger] scan_args_of(url, c, a);
                &&& args.last() == url
                &&& args.contains("--flat-playlist"@)
                &&& args.contains("--skip-download"@)
                &&& args.contains("--dump-single-json"@)
                &&& args.len() == 5 + (if c is Some {
                    2int
                } else {
                    0
                }) + (if a is Some {
                    2int
                } else {
                    0
                })
            },
        forall|a: Option<Seq<char>>| text::given(
            #[trigger] scan_args_of(url, Some(cookies), a),
            "--cookies"@,
            cookies,
        ),
        forall|c: Option<Seq<char>>| text::given(
            #[trigger] scan_args_of(url, c, Some(archive)),
            "--download-archive"@,
            archive,
        ),
{
    assert forall|c: Option<Seq<char>>, a: Option<Seq<char>>|
        {
            let args = #[trigger] scan_args_of(url, c, a);
            &&& args.contains("--flat-playlist"@)
            &&& args.contains("--skip-download"@)
            &&& args.contains("--dump-single-json"@)
        } by {
        let args = scan_args_of(url, c, a);
        assert(args[0] == "--flat-playlist"@);
        assert(args[1] == "--skip-download"@);
        assert(args[2] == "--dump-single-json"@);
    }
    assert forall|a: Option<Seq<char>>| text::given(
        #[trigger] scan_args_of(url, Some(cookies), a),
        "--cookies"@,
        cookies,
    ) by {
        let args = scan_args_of(url, Some(cookies), a);
        assert(args[4] == "--cookies"@);
    }
    assert forall|c: Option<Seq<char>>| text::given(
        #[trigger] scan_args_of(url, c, Some(archive)),
        "--download-archive"@,
        archive,
    ) by {
        let args = scan_args_of(url, c, Some(archive));
        assert(args[args.len() - 3] == "--download-archive"@);
    }
}

} // verus!
