//! The plugins' sections of the host's configuration.
use vstd::prelude::*;

use crate::text;

verus! {

/// Settings of the transcript analysis.
#[derive(Debug)]
pub struct CrunchrAnalysisConfig {
    pub enabled: bool,
    /// The environment variable that holds the OpenRouter key.
    pub openrouter_api_key_env: Option<String>,
    pub model: String,
}

#[verifier::ext_equal]
pub struct AnalysisConfigModel {
    pub enabled: bool,
    pub openrouter_api_key_env: Option<Seq<char>>,
    pub model: Seq<char>,
}

impl DeepView for CrunchrAnalysisConfig {
    type V = AnalysisConfigModel;

    open spec fn deep_view(&self) -> AnalysisConfigModel {
        AnalysisConfigModel {
            enabled: self.enabled,
            openrouter_api_key_env: self.openrouter_api_key_env.deep_view(),
            model: self.model@,
        }
    }
}

impl CrunchrAnalysisConfig {
    /// A copy of the settings.
    pub fn duplicate(&self) -> (r: CrunchrAnalysisConfig)
        ensures
            r.deep_view() == self.deep_view(),
    {
        CrunchrAnalysisConfig {
            enabled: self.enabled,
            openrouter_api_key_env: text::copy_option(&self.openrouter_api_key_env),
            model: self.model.clone(),
        }
    }
}

/// Settings of the transcription plugin.
#[derive(Debug)]
pub struct CrunchrConfig {
    pub enabled: bool,
    /// Whether the user has been through the settings once.
    pub configured: bool,
    pub backend: String,
    pub api_key_env: Option<String>,
    pub endpoint: Option<String>,
    pub whisper_model: Option<String>,
    pub whisper_timeout_secs: u64,
    pub analysis: CrunchrAnalysisConfig,
    /// Keys of the channels whose recordings are processed as they finish.
    pub tandem_channels: Vec<String>,
    /// Playlists whose recordings are processed as they finish.
    pub tandem_playlists: Vec<String>,
}

#[verifier::ext_equal]
pub struct CrunchrConfigModel {
    pub enabled: bool,
    pub configured: bool,
    pub backend: Seq<char>,
    pub api_key_env: Option<Seq<char>>,
    pub endpoint: Option<Seq<char>>,
    pub whisper_model: Option<Seq<char>>,
    pub whisper_timeout_secs: u64,
    pub analysis: AnalysisConfigModel,
    pub tandem_channels: Seq<Seq<char>>,
    pub tandem_playlists: Seq<Seq<char>>,
}

impl DeepView for CrunchrConfig {
    type V = CrunchrConfigModel;

    open spec fn deep_view(&self) -> CrunchrConfigModel {
        CrunchrConfigModel {
            enabled: self.enabled,
            configured: self.configured,
            backend: self.backend@,
            api_key_env: self.api_key_env.deep_view(),
            endpoint: self.endpoint.deep_view(),
            whisper_model: self.whisper_model.deep_view(),
            whisper_timeout_secs: self.whisper_timeout_secs,
            analysis: self.analysis.deep_view(),
            tandem_channels: self.tandem_channels.deep_view(),
            tandem_playlists: self.tandem_playlists.deep_view(),
        }
    }
}

/// Settings of the archiver plugin.
#[derive(Debug)]
pub struct ArchiverConfig {
    pub enabled: bool,
    /// Whether the user has been through the settings once.
    pub configured: bool,
    pub archive_dir: String,
    /// The format selector handed to the downloader.
    pub format: String,
    pub concurrent_fragments: u32,
    pub rate_limit: String,
    /// Keys of the channels that are archived as their recordings finish.
    pub tandem_channels: Vec<String>,
    /// Playlists that are archived as their recordings finish.
    pub tandem_playlists: Vec<String>,
}

#[verifier::ext_equal]
pub struct ArchiverConfigModel {
    pub enabled: bool,
    pub configured: bool,
    pub archive_dir: Seq<char>,
    pub format: Seq<char>,
    pub concurrent_fragments: u32,
    pub rate_limit: Seq<char>,
    pub tandem_channels: Seq<Seq<char>>,
    pub tandem_playlists: Seq<Seq<char>>,
}

impl DeepView for ArchiverConfig {
    type V = ArchiverConfigModel;

    open spec fn deep_view(&self) -> ArchiverConfigModel {
        ArchiverConfigModel {
            enabled: self.enabled,
            configured: self.configured,
            archive_dir: self.archive_dir@,
            format: self.format@,
            concurrent_fragments: self.concurrent_fragments,
            rate_limit: self.rate_limit@,
            tandem_channels: self.tandem_channels.deep_view(),
            tandem_playlists: self.tandem_playlists.deep_view(),
        }
    }
}

impl ArchiverConfig {
    /// A copy of the settings.
    pub fn duplicate(&self) -> (r: ArchiverConfig)
        ensures
            r.deep_view() == self.deep_view(),
    {
        ArchiverConfig {
            enabled: self.enabled,
            configured: self.configured,
            archive_dir: self.archive_dir.clone(),
            format: self.format.clone(),
            concurrent_fragments: self.concurrent_fragments,
            rate_limit: self.rate_limit.clone(),
            tandem_channels: text::copies(&self.tandem_channels),
            tandem_playlists: text::copies(&self.tandem_playlists),
        }
    }
}

/// The settings modal of a plugin.
#[derive(Clone, Copy, Debug, PartialEq, Eq, Structural)]
pub enum ConfigModalState {
    Hidden,
    Active {
        /// The field in focus. The fields are the static ones, then one per channel, then Save.
        selected_field: usize,
        /// Whether the field in focus takes text.
        editing: bool,
        static_field_count: usize,
    },
}

/// Which keys are not `key`.
pub open spec fn other_than(key: Seq<char>) -> spec_fn(Seq<char>) -> bool {
    |k: Seq<char>| k != key
}

/// A list of keys with `key` taken out, or with `key` at its end if it was not there.
pub open spec fn flipped(keys: Seq<Seq<char>>, key: Seq<char>) -> Seq<Seq<char>> {
    if keys.contains(key) {
        keys.filter(other_than(key))
    } else {
        keys.push(key)
    }
}

/// Takes `key` out of `keys`, or adds it. Returns whether it was added.
pub fn flip(keys: &mut Vec<String>, key: &str) -> (added: bool)
    ensures
        final(keys).deep_view() == flipped(old(keys).deep_view(), key@),
        added == !old(keys).deep_view().contains(key@),
{
    if text::holds(keys, key) {
        let ghost had = keys.deep_view();
        let ghost other = other_than(key@);
        let mut out: Vec<String> = Vec::new();
        let mut i: usize = 0;
        assert(out.deep_view() == had.take(0).filter(other)) by {
            reveal(Seq::filter);
        }
        while i < keys.len()
            invariant
                i <= keys.len(),
                had == keys.deep_view(),
                other == other_than(key@),
                out.deep_view() == had.take(i as int).filter(other),
            decreases keys.len() - i,
        {
            let ghost before = out.deep_view();
            assert(had.take(i + 1).drop_last() == had.take(i as int));
            assert(had.take(i + 1).last() == keys[i as int]@);
            if !text::same_str(keys[i].as_str(), key) {
                out.push(keys[i].clone());
                assert(out.deep_view() == before.push(keys[i as int]@));
            }
            assert(out.deep_view() == had.take(i + 1).filter(other)) by {
                reveal(Seq::filter);
            }
            i = i + 1;
        }
        assert(had.take(keys.len() as int) == had);
        *keys = out;
        false
    } else {
        let ghost before = keys.deep_view();
        keys.push(key.to_owned());
        assert(keys.deep_view() == before.push(key@));
        true
    }
}

/// Flipping a key that is not listed puts it at the end, and flipping it again restores the list.
pub proof fn law_flip_twice(keys: Seq<Seq<char>>, key: Seq<char>)
    requires
        !keys.contains(key),
    ensures
        flipped(keys, key) == keys.push(key),
        flipped(flipped(keys, key), key) == keys,
{
    let now = keys.push(key);
    assert(now.last() == key);
    assert(now.contains(key));
    assert forall|i: int| 0 <= i < keys.len() implies other_than(key)(#[trigger] keys[i]) by {
        assert(keys.contains(keys[i]));
    }
    lemma_filter_all(keys, other_than(key));
    assert(now.drop_last() == keys);
    reveal(Seq::filter);
}

proof fn lemma_filter_all(keys: Seq<Seq<char>>, keep: spec_fn(Seq<char>) -> bool)
    requires
        forall|i: int| 0 <= i < keys.len() ==> keep(#[trigger] keys[i]),
    ensures
        keys.filter(keep) == keys,
    decreases keys.len(),
{
    reveal(Seq::filter);
    if keys.len() > 0 {
        assert forall|i: int| 0 <= i < keys.len() - 1 implies keep(#[trigger] keys.drop_last()[i]) by {
            assert(keep(keys[i]));
        }
        lemma_filter_all(keys.drop_last(), keep);
        assert(keep(keys[keys.len() - 1]));
        assert(keys.drop_last().push(keys.last()) == keys);
    }
}

/// Flipping a key changes whether that key is listed, and no other.
pub proof fn law_flip(keys: Seq<Seq<char>>, key: Seq<char>, other: Seq<char>)
    ensures
        flipped(keys, key).contains(key) == !keys.contains(key),
        other != key ==> flipped(keys, key).contains(other) == keys.contains(other),
{
    let keep = other_than(key);
    let now = flipped(keys, key);
    if keys.contains(key) {
        broadcast use vstd::seq_lib::group_filter_ensures;

        if keys.contains(other) && other != key {
            let i = choose|i: int| 0 <= i < keys.len() && keys[i] == other;
            assert(keep(keys[i]));
            assert(now.contains(keys[i]));
        }
        if now.contains(other) {
            keys.lemma_filter_contains_rev(keep, other);
        }
        if now.contains(key) {
            let i = choose|i: int| 0 <= i < now.len() && now[i] == key;
            assert(keep(now[i]));
        }
    } else {
        assert(now.last() == key);
        if keys.contains(other) {
            let i = choose|i: int| 0 <= i < keys.len() && keys[i] == other;
            assert(now[i] == other);
        }
        if now.contains(other) && other != key {
            let i = choose|i: int| 0 <= i < now.len() && now[i] == other;
            assert(keys[i] == other);
        }
    }
}

} // verus!
