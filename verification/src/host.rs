//! What the host application hands to a plugin: keys, channels, recordings, paths.
use vstd::prelude::*;

use crate::config::{
    AnalysisConfigModel, ArchiverConfig, ArchiverConfigModel, CrunchrAnalysisConfig,
};
use crate::text;

verus! {

/// A key press, as far as the plugins tell keys apart.
#[derive(Clone, Copy, Debug, PartialEq, Eq, Structural)]
pub enum Key {
    Esc,
    Enter,
    Backspace,
    Tab,
    Up,
    Down,
    Char(char),
    Other,
}

/// The streaming platforms that the plugins know by name.
#[derive(Clone, Copy, Debug, PartialEq, Eq, Structural)]
pub enum PlatformKind {
    Twitch,
    YouTube,
    Other,
}

/// A platform with the label that the host shows for it.
#[derive(Debug)]
pub struct Platform {
    pub kind: PlatformKind,
    pub label: String,
}

#[verifier::ext_equal]
pub struct PlatformModel {
    pub kind: PlatformKind,
    pub label: Seq<char>,
}

impl DeepView for Platform {
    type V = PlatformModel;

    open spec fn deep_view(&self) -> PlatformModel {
        PlatformModel { kind: self.kind, label: self.label@ }
    }
}

impl Platform {
    /// A copy of the platform.
    pub fn duplicate(&self) -> (r: Platform)
        ensures
            r.deep_view() == self.deep_view(),
    {
        Platform { kind: self.kind, label: self.label.clone() }
    }
}

/// A channel that the user follows.
#[derive(Debug)]
pub struct ChannelEntry {
    pub id: String,
    pub name: String,
    pub display_name: String,
    pub platform: Platform,
}

#[verifier::ext_equal]
pub struct ChannelModel {
    pub id: Seq<char>,
    pub name: Seq<char>,
    pub display_name: Seq<char>,
    pub platform: PlatformModel,
}

impl DeepView for ChannelEntry {
    type V = ChannelModel;

    open spec fn deep_view(&self) -> ChannelModel {
        ChannelModel {
            id: self.id@,
            name: self.name@,
            display_name: self.display_name@,
            platform: self.platform.deep_view(),
        }
    }
}

impl ChannelEntry {
    /// A copy of the entry.
    pub fn duplicate(&self) -> (r: ChannelEntry)
        ensures
            r.deep_view() == self.deep_view(),
    {
        ChannelEntry {
            id: self.id.clone(),
            name: self.name.clone(),
            display_name: self.display_name.clone(),
            platform: self.platform.duplicate(),
        }
    }
}

/// A recording that the host knows of.
#[derive(Debug)]
pub struct RecordingInfo {
    pub id: u128,
    /// Whether it ended normally.
    pub finished: bool,
    /// The label of its platform.
    pub platform: String,
    pub channel_id: String,
    pub channel_name: String,
    pub stream_title: Option<String>,
    pub playlist: Option<String>,
    pub output_path: String,
}

#[verifier::ext_equal]
pub struct RecordingModel {
    pub id: u128,
    pub finished: bool,
    pub platform: Seq<char>,
    pub channel_id: Seq<char>,
    pub channel_name: Seq<char>,
    pub stream_title: Option<Seq<char>>,
    pub playlist: Option<Seq<char>>,
    pub output_path: Seq<char>,
}

impl DeepView for RecordingInfo {
    type V = RecordingModel;

    open spec fn deep_view(&self) -> RecordingModel {
        RecordingModel {
            id: self.id,
            finished: self.finished,
            platform: self.platform@,
            channel_id: self.channel_id@,
            channel_name: self.channel_name@,
            stream_title: self.stream_title.deep_view(),
            playlist: self.playlist.deep_view(),
            output_path: self.output_path@,
        }
    }
}

/// What the plugins see of the host.
#[derive(Debug)]
pub struct AppSnapshot {
    pub channels: Vec<ChannelEntry>,
    /// The recordings, in the order in which the host lists them.
    pub recordings: Vec<RecordingInfo>,
    /// The analysis settings of a fresh configuration.
    pub analysis_defaults: CrunchrAnalysisConfig,
    /// The archiver settings of a fresh configuration.
    pub archiver_defaults: ArchiverConfig,
}

#[verifier::ext_equal]
pub struct AppModel {
    pub channels: Seq<ChannelModel>,
    pub recordings: Seq<RecordingModel>,
    pub analysis_defaults: AnalysisConfigModel,
    pub archiver_defaults: ArchiverConfigModel,
}

impl DeepView for AppSnapshot {
    type V = AppModel;

    open spec fn deep_view(&self) -> AppModel {
        AppModel {
            channels: self.channels.deep_view(),
            recordings: self.recordings.deep_view(),
            analysis_defaults: self.analysis_defaults.deep_view(),
            archiver_defaults: self.archiver_defaults.deep_view(),
        }
    }
}

/// The title of a recording.
pub open spec fn title_of(r: RecordingModel) -> Seq<char> {
    match r.stream_title {
        Some(t) => t,
        None => "Untitled"@,
    }
}

/// Whether a recording belongs to one of the channels or playlists that are handled in tandem.
pub open spec fn in_tandem(
    r: RecordingModel,
    channels: Seq<Seq<char>>,
    playlists: Seq<Seq<char>>,
) -> bool {
    ||| channels.contains(channel_key_of(r.platform, r.channel_id))
    ||| match r.playlist {
        Some(p) => playlists.contains(p),
        None => false,
    }
}

impl RecordingInfo {
    /// The title of the recording.
    pub fn title(&self) -> (r: String)
        ensures
            r@ == title_of(self.deep_view()),
    {
        match &self.stream_title {
            Some(t) => t.clone(),
            None => "Untitled".to_owned(),
        }
    }

    /// Whether the recording belongs to one of the channels or playlists that are handled in
    /// tandem.
    pub fn is_in_tandem(&self, channels: &Vec<String>, playlists: &Vec<String>) -> (r: bool)
        ensures
            r == in_tandem(self.deep_view(), channels.deep_view(), playlists.deep_view()),
    {
        let key = channel_key(self.platform.as_str(), self.channel_id.as_str());
        if text::holds(channels, key.as_str()) {
            return true;
        }
        match &self.playlist {
            Some(p) => text::holds(playlists, p.as_str()),
            None => false,
        }
    }
}

/// The key under which a channel is listed: its platform's label, a colon, its id.
pub open spec fn channel_key_of(platform: Seq<char>, id: Seq<char>) -> Seq<char> {
    platform + ":"@ + id
}

/// How a channel is shown in a checklist.
pub open spec fn channel_label_of(platform: Seq<char>, name: Seq<char>) -> Seq<char> {
    "["@ + platform + "] "@ + name
}

/// The key of a channel.
pub fn channel_key(platform: &str, id: &str) -> (r: String)
    ensures
        r@ == channel_key_of(platform@, id@),
{
    text::cat3(platform, ":", id)
}

/// The keys and the shown names of `channels`, in order.
pub open spec fn checklist_of(channels: Seq<ChannelModel>) -> Seq<(Seq<char>, Seq<char>)> {
    channels.map_values(
        |c: ChannelModel|
            (
                channel_key_of(c.platform.label, c.id),
                channel_label_of(c.platform.label, c.display_name),
            ),
    )
}

/// The keys and the shown names of `channels`, in order.
pub fn checklist(channels: &Vec<ChannelEntry>) -> (r: Vec<(String, String)>)
    ensures
        r.deep_view() == checklist_of(channels.deep_view()),
{
    let mut out: Vec<(String, String)> = Vec::new();
    let mut i: usize = 0;
    let ghost all = channels.deep_view();
    assert(out.deep_view() == checklist_of(all.take(0)));
    while i < channels.len()
        invariant
            i <= channels.len(),
            all == channels.deep_view(),
            out.deep_view() == checklist_of(all.take(i as int)),
        decreases channels.len() - i,
    {
        let c = &channels[i];
        let key = channel_key(c.platform.label.as_str(), c.id.as_str());
        let mut shown = text::cat3("[", c.platform.label.as_str(), "] ");
        shown.append(c.display_name.as_str());
        let ghost before = out.deep_view();
        let ghost pair = (key@, shown@);
        out.push((key, shown));
        assert(out.deep_view() == before.push(pair));
        assert(all.take(i + 1) == all.take(i as int).push(all[i as int]));
        assert(checklist_of(all.take(i + 1)) == checklist_of(all.take(i as int)).push(pair));
        i = i + 1;
    }
    assert(all.take(channels.len() as int) == all);
    out
}

/// The index of the first recording with `id`, or how many there are.
pub open spec fn recording_at(all: Seq<RecordingModel>, id: u128) -> int
    decreases all.len(),
{
    if all.len() == 0 {
        0
    } else {
        let k = recording_at(all.drop_last(), id);
        if k < all.len() - 1 || all.last().id == id {
            k
        } else {
            k + 1
        }
    }
}

/// The recording with `id`, if the host knows one.
pub open spec fn recording_with(all: Seq<RecordingModel>, id: u128) -> Option<RecordingModel> {
    let k = recording_at(all, id);
    if k < all.len() {
        Some(all[k])
    } else {
        None
    }
}

/// `recording_at` is the first match.
pub proof fn lemma_recording_at(all: Seq<RecordingModel>, id: u128)
    ensures
        0 <= recording_at(all, id) <= all.len(),
        recording_at(all, id) < all.len() ==> all[recording_at(all, id)].id == id,
        forall|j: int| 0 <= j < recording_at(all, id) ==> (#[trigger] all[j]).id != id,
    decreases all.len(),
{
    if all.len() > 0 {
        let t = all.drop_last();
        lemma_recording_at(t, id);
        assert forall|j: int| 0 <= j < recording_at(all, id) implies (#[trigger] all[j]).id
            != id by {
            if j < t.len() {
                assert(t[j] == all[j]);
            }
        }
        if recording_at(t, id) < t.len() {
            assert(t[recording_at(t, id)] == all[recording_at(t, id)]);
        }
    }
}

/// The recording with `id`, if there is one.
pub fn find_recording<'a>(all: &'a Vec<RecordingInfo>, id: u128) -> (r: Option<&'a RecordingInfo>)
    ensures
        r.deep_view() == recording_with(all.deep_view(), id),
{
    let mut i: usize = 0;
    let ghost recs = all.deep_view();
    while i < all.len()
        invariant
            i <= all.len(),
            recs == all.deep_view(),
            forall|j: int| 0 <= j < i ==> (#[trigger] recs[j]).id != id,
        decreases all.len() - i,
    {
        assert(recs[i as int] == all[i as int].deep_view());
        if all[i].id == id {
            proof {
                lemma_recording_at(recs, id);
            }
            return Some(&all[i]);
        }
        i = i + 1;
    }
    proof {
        lemma_recording_at(recs, id);
    }
    None
}

/// A path made of a base and parts joined to it one after the other.
#[derive(Debug)]
pub struct JoinedPath {
    pub base: String,
    pub parts: Vec<String>,
}

#[verifier::ext_equal]
pub struct PathModel {
    pub base: Seq<char>,
    pub parts: Seq<Seq<char>>,
}

impl DeepView for JoinedPath {
    type V = PathModel;

    open spec fn deep_view(&self) -> PathModel {
        PathModel { base: self.base@, parts: self.parts.deep_view() }
    }
}

impl JoinedPath {
    /// `base` alone.
    pub fn of(base: &str) -> (r: JoinedPath)
        ensures
            r.deep_view() == (PathModel { base: base@, parts: Seq::empty() }),
    {
        let parts: Vec<String> = Vec::new();
        assert(parts.deep_view() == Seq::<Seq<char>>::empty());
        JoinedPath { base: base.to_owned(), parts }
    }

    /// The path with one more part.
    pub fn with(&self, part: &str) -> (r: JoinedPath)
        ensures
            r.deep_view() == (PathModel {
                base: self.base@,
                parts: self.parts.deep_view().push(part@),
            }),
    {
        let mut parts = text::copies(&self.parts);
        parts.push(part.to_owned());
        assert(parts.deep_view() == self.parts.deep_view().push(part@));
        JoinedPath { base: self.base.clone(), parts }
    }

    /// A copy of the path.
    pub fn duplicate(&self) -> (r: JoinedPath)
        ensures
            r.deep_view() == self.deep_view(),
    {
        JoinedPath { base: self.base.clone(), parts: text::copies(&self.parts) }
    }
}

/// A recording is handled in tandem exactly when its channel is listed, by platform and id, or it
/// belongs to a listed playlist.
pub proof fn law_in_tandem(
    r: RecordingModel,
    channels: Seq<Seq<char>>,
    playlists: Seq<Seq<char>>,
)
    ensures
        in_tandem(r, channels, playlists) <==> channels.contains(r.platform + ":"@ + r.channel_id)
            || (r.playlist matches Some(p) && playlists.contains(p)),
        r.playlist is None ==> in_tandem(r, channels, playlists) == in_tandem(
            r,
            channels,
            Seq::empty(),
        ),
{
}

/// The list of channels in the settings has the host's channels, all of them and in order, each
/// with the key that recordings of it have, and under its name and platform.
pub proof fn law_checklist(channels: Seq<ChannelModel>, i: int, r: RecordingModel)
    requires
        0 <= i < channels.len(),
    ensures
        ({
            let list = checklist_of(channels);
            let c = channels[i];
            &&& list.len() == channels.len()
            &&& list[i].0 == c.platform.label + ":"@ + c.id
            &&& list[i].1 == "["@ + c.platform.label + "] "@ + c.display_name
            &&& r.platform == c.platform.label && r.channel_id == c.id ==> in_tandem(
                r,
                seq![list[i].0],
                Seq::empty(),
            )
        }),
{
    assert(seq![checklist_of(channels)[i].0].contains(checklist_of(channels)[i].0)) by {
        assert(seq![checklist_of(channels)[i].0][0] == checklist_of(channels)[i].0);
    }
}

/// Channels of a platform with different ids have different keys.
pub proof fn law_keys_apart(platform: Seq<char>, a: Seq<char>, b: Seq<char>)
    ensures
        channel_key_of(platform, a) == channel_key_of(platform, b) ==> a == b,
{
    let n = (platform + ":"@).len() as int;
    assert(channel_key_of(platform, a).skip(n) == a);
    assert(channel_key_of(platform, b).skip(n) == b);
}

/// A recording is found by its id, the first with it; none is found exactly where there is none.
/// One without a title is called "Untitled", another by its title.
pub proof fn law_recording_found(all: Seq<RecordingModel>, id: u128)
    ensures
        match recording_with(all, id) {
            Some(r) => r.id == id && exists|i: int|
                0 <= i < all.len() && #[trigger] all[i] == r && (forall|j: int|
                    0 <= j < i ==> (#[trigger] all[j]).id != id),
            None => forall|i: int| 0 <= i < all.len() ==> (#[trigger] all[i]).id != id,
        },
        forall|r: RecordingModel|
            match r.stream_title {
                Some(t) => #[trigger] title_of(r) == t,
                None => title_of(r) == "Untitled"@,
            },
{
    lemma_recording_at(all, id);
    if recording_at(all, id) < all.len() {
        assert(all[recording_at(all, id)] == recording_with(all, id)->0);
    }
}

} // verus!
