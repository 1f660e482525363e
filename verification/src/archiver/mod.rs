//! Archiving of whole channels: the plugin's state and how it answers keys, events and results.
pub mod downloader;
pub mod laws;
pub mod model;
pub mod render;
pub mod scanner;
pub mod types;

use vstd::prelude::*;

use std::collections::HashSet;

use crate::config::{flip, ArchiverConfig, ConfigModalState};
use crate::host;
use crate::host::{
    AppSnapshot, ChannelEntry, ChannelModel, JoinedPath, Key, PathModel, PlatformKind,
};
use crate::ids;
use crate::number;
use crate::picker::PickerState;
use crate::text;

use model::ArchiverModel;
use types::{
    ArchiveJob, ArchiveState, ArchiverEvent, ArchiverView, Effect, EffectModel, JobModel,
    PendingVideo, VideoEntry,
};

verus! {

/// The pane of the plugin.
pub const PANE_ID: &'static str = "archiver";

/// Number of static config fields in the config modal (before the channel checklist).
/// Fields: enabled, archive_dir, format, concurrent_fragments, rate_limit.
/// Channel checkboxes start behind them.
const ARCHIVER_STATIC_FIELDS: usize = 5;

/// What the plugin keeps to itself.
#[derive(Debug)]
pub struct ArchiverCore {
    /// Whether the database is open.
    db_open: bool,
    data_dir: String,
}

#[verifier::ext_equal]
pub struct CoreModel {
    pub db_open: bool,
    pub data_dir: Seq<char>,
}

impl View for ArchiverCore {
    type V = CoreModel;

    closed spec fn view(&self) -> CoreModel {
        CoreModel { db_open: self.db_open, data_dir: self.data_dir@ }
    }
}

/// The archiver plugin.
#[derive(Debug)]
pub struct ArchiverPlugin {
    pub core: ArchiverCore,
    pub config: Option<ArchiverConfig>,
    pub jobs: Vec<ArchiveJob>,
    pub channels: Vec<ChannelEntry>,
    pub selected_channel: usize,
    pub selected_job: usize,
    pub view: ArchiverView,
    pub last_error: Option<String>,
    /// Whether the plugin is enabled for tandem auto-processing.
    pub enabled: bool,
    /// Whether the first-run config has been completed.
    pub configured: bool,
    /// Tandem channels.
    pub tandem_channels: Vec<String>,
    /// Tandem playlists.
    pub tandem_playlists: Vec<String>,
    /// Config modal state.
    pub config_modal: ConfigModalState,
    /// Draft config being edited in the modal.
    pub config_draft: Option<ArchiverConfig>,
    /// Recording picker state.
    pub picker: PickerState,
    /// Channel keys and names for the config modal's tandem checkboxes.
    pub cached_channels: Vec<(String, String)>,
}

impl View for ArchiverPlugin {
    type V = ArchiverModel;

    open spec fn view(&self) -> ArchiverModel {
        ArchiverModel {
            db_open: self.core@.db_open,
            data_dir: self.core@.data_dir,
            config: self.config.deep_view(),
            jobs: self.jobs.deep_view(),
            channels: self.channels.deep_view(),
            selected_channel: self.selected_channel as nat,
            selected_job: self.selected_job as nat,
            view: self.view,
            last_error: self.last_error.deep_view(),
            enabled: self.enabled,
            configured: self.configured,
            tandem_channels: self.tandem_channels.deep_view(),
            tandem_playlists: self.tandem_playlists.deep_view(),
            config_modal: self.config_modal,
            config_draft: self.config_draft.deep_view(),
            picker: self.picker.deep_view(),
            cached_channels: self.cached_channels.deep_view(),
        }
    }
}

/// One effect.
fn one(effect: Effect) -> (r: Vec<Effect>)
    ensures
        r.deep_view() == seq![effect.deep_view()],
{
    let mut out: Vec<Effect> = Vec::new();
    let ghost e = effect.deep_view();
    out.push(effect);
    assert(out.deep_view() == seq![e]);
    out
}

/// No effect.
fn nothing() -> (r: Vec<Effect>)
    ensures
        r.deep_view() == Seq::<EffectModel>::empty(),
{
    let out: Vec<Effect> = Vec::new();
    assert(out.deep_view() == Seq::<EffectModel>::empty());
    out
}

/// Puts effects behind others.
fn put_all(out: &mut Vec<Effect>, more: Vec<Effect>)
    ensures
        final(out).deep_view() == old(out).deep_view() + more.deep_view(),
{
    let ghost before = out.deep_view();
    let ghost rest = more.deep_view();
    let mut tail = more;
    out.append(&mut tail);
    assert(out.deep_view() == before + rest);
}

/// The address of a channel's videos, on the platforms that can be archived.
pub fn channel_url(c: &ChannelEntry) -> (r: Option<String>)
    ensures
        r.deep_view() == model::channel_url_of(c.deep_view()),
{
    match c.platform.kind {
        PlatformKind::Twitch => Some(
            text::cat3("https://www.twitch.tv/", c.name.as_str(), "/videos?filter=archives"),
        ),
        PlatformKind::YouTube => Some(
            text::cat3("https://www.youtube.com/@", c.name.as_str(), "/videos"),
        ),
        PlatformKind::Other => None,
    }
}

/// The first channel with `id`.
fn find_channel<'a>(channels: &'a Vec<ChannelEntry>, id: &str) -> (r: Option<&'a ChannelEntry>)
    ensures
        r.deep_view() == model::channel_with(channels.deep_view(), id@),
{
    let ghost all = channels.deep_view();
    let mut i: usize = 0;
    assert(all.take(0) == Seq::<ChannelModel>::empty());
    while i < channels.len()
        invariant
            i <= channels.len(),
            all == channels.deep_view(),
            model::channel_with(all.take(i as int), id@) is None,
        decreases channels.len() - i,
    {
        assert(all.take(i + 1).drop_last() == all.take(i as int));
        assert(all.take(i + 1).last() == channels[i as int].deep_view());
        if text::same_str(channels[i].id.as_str(), id) {
            proof {
                lemma_channel_with(all, id@, i + 1);
            }
            return Some(&channels[i]);
        }
        i = i + 1;
    }
    assert(all.take(channels.len() as int) == all);
    None
}

/// A channel found among the first ones is the one found.
proof fn lemma_channel_with(all: Seq<ChannelModel>, id: Seq<char>, n: int)
    requires
        0 <= n <= all.len(),
        model::channel_with(all.take(n), id) is Some,
    ensures
        model::channel_with(all, id) == model::channel_with(all.take(n), id),
    decreases all.len() - n,
{
    if n < all.len() {
        assert(all.take(n + 1).drop_last() == all.take(n));
        lemma_channel_with(all, id, n + 1);
    } else {
        assert(all.take(n) == all);
    }
}

impl Default for ArchiverPlugin {
    fn default() -> (r: Self)
        ensures
            r@ == model::fresh(),
    {
        Self::new()
    }
}

impl ArchiverPlugin {
    pub fn new() -> (r: Self)
        ensures
            r@ == model::fresh(),
            r@.wf(),
    {
        let r = ArchiverPlugin {
            core: ArchiverCore { db_open: false, data_dir: String::new() },
            config: None,
            jobs: Vec::new(),
            channels: Vec::new(),
            selected_channel: 0,
            selected_job: 0,
            view: ArchiverView::ChannelList,
            last_error: None,
            enabled: false,
            configured: false,
            tandem_channels: Vec::new(),
            tandem_playlists: Vec::new(),
            config_modal: ConfigModalState::Hidden,
            config_draft: None,
            picker: PickerState::new(),
            cached_channels: Vec::new(),
        };
        assert(r@ == model::fresh());
        r
    }

    /// Where the job with `id` stands, or how many jobs there are.
    fn find_job(&self, id: u128) -> (r: usize)
        ensures
            r == model::job_at(self.jobs.deep_view(), id),
            r <= self.jobs.len(),
    {
        let mut i: usize = 0;
        let ghost jobs = self.jobs.deep_view();
        while i < self.jobs.len()
            invariant
                i <= self.jobs.len(),
                jobs == self.jobs.deep_view(),
                forall|j: int| 0 <= j < i ==> (#[trigger] jobs[j]).id != id,
            decreases self.jobs.len() - i,
        {
            assert(jobs[i as int] == self.jobs[i as int].deep_view());
            if self.jobs[i].id == id {
                proof {
                    model::lemma_job_at_is(jobs, id, i as int);
                }
                return i;
            }
            i = i + 1;
        }
        proof {
            model::lemma_job_at_is(jobs, id, i as int);
        }
        i
    }

    /// Takes a channel up, as the job `job_id`: it is scanned.
    pub fn start_archive_as(&mut self, channel: &ChannelEntry, job_id: u128) -> (r: Vec<Effect>)
        requires
            old(self)@.wf(),
        ensures
            final(self)@.wf(),
            (final(self)@, r.deep_view()) == old(self)@.start_archive_as(
                channel.deep_view(),
                job_id,
            ),
    {
        let base = match &self.config {
            Some(c) => JoinedPath::of(c.archive_dir.as_str()),
            None => {
                return one(Effect::SetStatus("Archiver: no config".to_owned()));
            },
        };
        let url = match channel_url(channel) {
            Some(u) => u,
            None => {
                return nothing();
            },
        };
        let channel_dir = base.with(channel.display_name.as_str());
        let archive_txt = channel_dir.with("archive.txt");
        assert(channel_dir.deep_view() == (PathModel {
            base: base.base@,
            parts: seq![channel.display_name@],
        }));
        assert(archive_txt.deep_view() == (PathModel {
            base: base.base@,
            parts: seq![channel.display_name@, "archive.txt"@],
        }));
        let job = ArchiveJob {
            id: job_id,
            channel_name: channel.display_name.clone(),
            channel_url: url.clone(),
            platform: channel.platform.duplicate(),
            archive_dir: channel_dir,
            state: ArchiveState::Scanning,
            total_videos: 0,
            completed_videos: 0,
            current_video: None,
            error: None,
        };
        let ghost before = self.jobs.deep_view();
        let ghost j = job.deep_view();
        self.jobs.push(job);
        assert(self.jobs.deep_view() == before.push(j));
        one(Effect::Scan { job_id, url, archive_txt })
    }

    /// Takes a channel up, as a job with a fresh id.
    pub fn start_archive(&mut self, channel: &ChannelEntry) -> (r: Vec<Effect>)
        requires
            old(self)@.wf(),
        ensures
            final(self)@.wf(),
            exists|id: u128| #[trigger]
                ids::is_random_id(id) && (final(self)@, r.deep_view())
                    == old(self)@.start_archive_as(channel.deep_view(), id),
    {
        let id = ids::new_id();
        self.start_archive_as(channel, id)
    }

    /// Takes channels up one after the other, as the jobs `ids`.
    pub fn start_all(&mut self, channels: &Vec<ChannelEntry>, ids: &Vec<u128>) -> (r: Vec<Effect>)
        requires
            old(self)@.wf(),
            ids.len() == channels.len(),
        ensures
            final(self)@.wf(),
            (final(self)@, r.deep_view()) == old(self)@.start_all(channels.deep_view(), ids@),
    {
        let ghost all = channels.deep_view();
        let mut out = nothing();
        let mut i: usize = 0;
        assert(all.take(0) == Seq::<ChannelModel>::empty());
        while i < channels.len()
            invariant
                i <= channels.len(),
                ids.len() == channels.len(),
                all == channels.deep_view(),
                self@.wf(),
                (self@, out.deep_view()) == old(self)@.start_all(all.take(i as int), ids@),
            decreases channels.len() - i,
        {
            assert(all.take(i + 1).drop_last() == all.take(i as int));
            assert(all.take(i + 1).last() == channels[i as int].deep_view());
            let more = self.start_archive_as(&channels[i], ids[i]);
            put_all(&mut out, more);
            i = i + 1;
        }
        assert(all.take(channels.len() as int) == all);
        out
    }

    /// Goes on to the next video of a job, or ends it.
    fn start_next_download(&mut self, job_id: u128) -> (r: Vec<Effect>)
        ensures
            (final(self)@, r.deep_view()) == old(self)@.start_next_download(job_id),
    {
        let i = self.find_job(job_id);
        if i >= self.jobs.len() {
            return nothing();
        }
        assert(self@.job(job_id) == self.jobs[i as int].deep_view());
        if self.jobs[i].completed_videos >= self.jobs[i].total_videos {
            let mut said = text::cat3("Archiver: ", self.jobs[i].channel_name.as_str(), " complete (");
            let total = number::decimal(self.jobs[i].total_videos as u64);
            said.append(total.as_str());
            said.append(" videos)");
            self.stage(job_id, ArchiveState::Complete);
            return one(Effect::SetStatus(said));
        }
        if !self.core.db_open {
            return nothing();
        }
        one(Effect::LoadPending { job_id, url: self.jobs[i].channel_url.clone() })
    }

    /// Puts a job into another state.
    fn stage(&mut self, id: u128, state: ArchiveState)
        ensures
            final(self)@ == old(self)@.staged(id, state),
    {
        let i = self.find_job(id);
        if i < self.jobs.len() {
            let ghost before = self.jobs.deep_view();
            self.jobs[i].state = state;
            assert(self.jobs.deep_view() == before.update(
                i as int,
                JobModel { state, ..before[i as int] },
            ));
        }
        assert(self@ == old(self)@.staged(id, state));
    }

    /// Takes in the videos of a job's channel that have not been downloaded, the first one first,
    /// or that they could not be read. `defaults` stand in for a missing configuration.
    pub fn pending_loaded(
        &mut self,
        job_id: u128,
        found: Option<Vec<PendingVideo>>,
        defaults: &ArchiverConfig,
    ) -> (r: Vec<Effect>)
        requires
            old(self)@.wf(),
        ensures
            final(self)@.wf(),
            (final(self)@, r.deep_view()) == old(self)@.pending_loaded(
                job_id,
                found.deep_view(),
                defaults.deep_view(),
            ),
    {
        let videos = match found {
            Some(v) => v,
            None => {
                return nothing();
            },
        };
        let i = self.find_job(job_id);
        if i >= self.jobs.len() {
            return nothing();
        }
        assert(self@.job(job_id) == self.jobs[i as int].deep_view());
        assert(videos.len() == videos.deep_view().len());
        if videos.len() == 0 {
            self.stage(job_id, ArchiveState::Complete);
            return nothing();
        }
        let v = &videos[0];
        assert(v.deep_view() == videos.deep_view()[0]);
        let (format, concurrent_fragments) = match &self.config {
            Some(c) => (c.format.clone(), c.concurrent_fragments),
            None => (defaults.format.clone(), defaults.concurrent_fragments),
        };
        let platform = text::to_lowercase(self.jobs[i].platform.label.as_str());
        let url = downloader::video_url(v.video_id.as_str(), platform.as_str());
        let output_dir = self.jobs[i].archive_dir.duplicate();
        let archive_txt = self.jobs[i].archive_dir.with("archive.txt");
        let ghost before = self.jobs.deep_view();
        self.jobs[i].current_video = Some(v.title.clone());
        assert(self.jobs.deep_view() == before.update(
            i as int,
            JobModel { current_video: Some(v.title@), ..before[i as int] },
        ));
        one(
            Effect::Download {
                job_id,
                video_id: v.video_id.clone(),
                url,
                output_dir,
                archive_txt,
                format,
                concurrent_fragments,
                playlist: text::copy_option(&v.playlist),
            },
        )
    }

    /// Stores the videos of a channel and seeks the first one.
    fn scan_complete(&mut self, job_id: u128, videos: Vec<VideoEntry>) -> (r: Vec<Effect>)
        ensures
            (final(self)@, r.deep_view()) == old(self)@.scan_complete(job_id, videos.deep_view()),
    {
        let count: usize = videos.len();
        assert(count == videos.deep_view().len());
        let ghost listed = videos.deep_view();
        let mut out = nothing();
        let i = self.find_job(job_id);
        if i < self.jobs.len() {
            assert(self@.job(job_id) == self.jobs[i as int].deep_view());
            if self.core.db_open {
                let archive_dir = match &self.config {
                    Some(c) => c.archive_dir.clone(),
                    None => String::new(),
                };
                out = one(
                    Effect::StoreScan {
                        name: self.jobs[i].channel_name.clone(),
                        url: self.jobs[i].channel_url.clone(),
                        platform: self.jobs[i].platform.label.clone(),
                        archive_dir,
                        videos,
                    },
                );
            }
            let ghost before = self.jobs.deep_view();
            self.jobs[i].total_videos = count;
            self.jobs[i].state = ArchiveState::Downloading;
            assert(self.jobs.deep_view() == before.update(
                i as int,
                JobModel {
                    total_videos: count as nat,
                    state: ArchiveState::Downloading,
                    ..before[i as int]
                },
            ));
        }
        assert(self@ == old(self)@.put(
            job_id,
            JobModel {
                total_videos: listed.len(),
                state: ArchiveState::Downloading,
                ..old(self)@.job(job_id)
            },
        ));
        if count == 0 {
            self.stage(job_id, ArchiveState::Complete);
            let said = one(Effect::SetStatus("Archiver: channel fully archived".to_owned()));
            put_all(&mut out, said);
            return out;
        }
        let more = self.start_next_download(job_id);
        put_all(&mut out, more);
        out
    }

    /// Counts a downloaded video and seeks the next one.
    fn video_downloaded(&mut self, job_id: u128, video_id: String) -> (r: Vec<Effect>)
        requires
            old(self)@.has_job(job_id) ==> old(self)@.job(job_id).completed_videos < usize::MAX,
        ensures
            (final(self)@, r.deep_view()) == old(self)@.video_downloaded(job_id, video_id@),
    {
        let mut out = nothing();
        let i = self.find_job(job_id);
        if i < self.jobs.len() {
            assert(self@.job(job_id) == self.jobs[i as int].deep_view());
            if self.core.db_open {
                out = one(
                    Effect::MarkDownloaded { url: self.jobs[i].channel_url.clone(), video_id },
                );
            }
            let ghost before = self.jobs.deep_view();
            self.jobs[i].completed_videos = self.jobs[i].completed_videos + 1;
            assert(self.jobs.deep_view() == before.update(
                i as int,
                JobModel {
                    completed_videos: before[i as int].completed_videos + 1,
                    ..before[i as int]
                },
            ));
        }
        assert(self@ == old(self)@.put(
            job_id,
            JobModel {
                completed_videos: old(self)@.job(job_id).completed_videos + 1,
                ..old(self)@.job(job_id)
            },
        ));
        let more = self.start_next_download(job_id);
        put_all(&mut out, more);
        out
    }

    /// Marks a job as failed and tells the user.
    fn job_error(&mut self, job_id: u128, error: String) -> (r: Vec<Effect>)
        ensures
            (final(self)@, r.deep_view()) == old(self)@.job_error(job_id, error@),
    {
        let said = text::cat("Archiver error: ", error.as_str());
        let i = self.find_job(job_id);
        if i < self.jobs.len() {
            let ghost before = self.jobs.deep_view();
            self.jobs[i].state = ArchiveState::Failed;
            self.jobs[i].error = Some(error.clone());
            assert(self.jobs.deep_view() == before.update(
                i as int,
                JobModel {
                    state: ArchiveState::Failed,
                    error: Some(error@),
                    ..before[i as int]
                },
            ));
        }
        self.last_error = Some(error);
        one(Effect::SetStatus(said))
    }

    /// Takes in what a scan or a download reports.
    pub fn handle_archiver_event(&mut self, event: ArchiverEvent) -> (r: Vec<Effect>)
        requires
            old(self)@.wf(),
            event matches ArchiverEvent::VideoDownloaded { job_id, video_id } ==> old(
                self,
            )@.has_job(job_id) ==> old(self)@.job(job_id).completed_videos < usize::MAX,
        ensures
            final(self)@.wf(),
            (final(self)@, r.deep_view()) == old(self)@.archiver_event(event.deep_view()),
    {
        match event {
            ArchiverEvent::ScanComplete { job_id, videos } => self.scan_complete(job_id, videos),
            ArchiverEvent::VideoDownloaded { job_id, video_id } => {
                self.video_downloaded(job_id, video_id)
            },
            ArchiverEvent::JobComplete { job_id } => {
                self.stage(job_id, ArchiveState::Complete);
                nothing()
            },
            ArchiverEvent::JobError { job_id, error } => self.job_error(job_id, error),
        }
    }

    /// Takes in the channels that the user follows.
    pub fn channels_updated(&mut self, channels: Vec<ChannelEntry>)
        requires
            old(self)@.wf(),
        ensures
            final(self)@.wf(),
            final(self)@ == (ArchiverModel { channels: channels.deep_view(), ..old(self)@ }),
            final(self)@ == old(self)@.with_channels(channels.deep_view()),
    {
        self.channels = channels;
    }

    /// Takes in that a recording has ended, normally or not.
    pub fn recording_finished(&mut self, job_id: u128, finished: bool, app: &AppSnapshot) -> (r: Vec<
        Effect,
    >)
        requires
            old(self)@.wf(),
        ensures
            final(self)@.wf(),
            old(self)@.finish_leads_to(
                job_id,
                finished,
                app.deep_view(),
                final(self)@,
                r.deep_view(),
            ),
    {
        if !finished || !self.enabled {
            return nothing();
        }
        match host::find_recording(&app.recordings, job_id) {
            Some(rec) => {
                if rec.is_in_tandem(&self.tandem_channels, &self.tandem_playlists) {
                    let channel = match find_channel(&self.channels, rec.channel_id.as_str()) {
                        Some(c) => c.duplicate(),
                        None => {
                            return nothing();
                        },
                    };
                    return self.start_archive(&channel);
                }
                nothing()
            },
            None => nothing(),
        }
    }
}

impl ArchiverPlugin {
    /// Opens the config modal, with a draft of the current config.
    pub fn open_config_modal(&mut self, app: &AppSnapshot)
        requires
            old(self)@.wf(),
            app.channels.len() < usize::MAX - 5,
        ensures
            final(self)@.wf(),
            final(self)@ == old(self)@.open_config(app.deep_view()),
    {
        self.cached_channels = host::checklist(&app.channels);
        let draft = match &self.config {
            Some(c) => c.duplicate(),
            None => app.archiver_defaults.duplicate(),
        };
        self.config_draft = Some(draft);
        self.config_modal = ConfigModalState::Active {
            selected_field: 0,
            editing: false,
            static_field_count: ARCHIVER_STATIC_FIELDS,
        };
        assert(self.cached_channels.len() == self@.cached_channels.len());
        assert(app.channels.len() == app.deep_view().channels.len());
    }

    /// A key while a field is edited.
    fn edit_key(&mut self, field: usize, key: Key)
        requires
            old(self)@.wf(),
            old(self).config_modal == (ConfigModalState::Active {
                selected_field: field,
                editing: true,
                static_field_count: 5,
            }),
            old(self)@.takes(key),
        ensures
            final(self)@ == old(self)@.edit_key(field as nat, key),
    {
        match key {
            Key::Esc | Key::Enter => {
                self.config_modal = ConfigModalState::Active {
                    selected_field: field,
                    editing: false,
                    static_field_count: ARCHIVER_STATIC_FIELDS,
                };
            },
            Key::Backspace => {
                match self.config_draft.take() {
                    Some(d) => {
                        let mut draft = d;
                        if field == 1 {
                            draft.archive_dir.pop();
                        } else if field == 2 {
                            draft.format.pop();
                        } else if field == 4 {
                            draft.rate_limit.pop();
                        }
                        self.config_draft = Some(draft);
                    },
                    None => {},
                }
            },
            Key::Char(c) => {
                match self.config_draft.take() {
                    Some(d) => {
                        let mut draft = d;
                        if field == 1 {
                            draft.archive_dir.push(c);
                        } else if field == 2 {
                            draft.format.push(c);
                        } else if field == 3 {
                            match digit(c) {
                                Some(n) => {
                                    draft.concurrent_fragments = draft.concurrent_fragments * 10
                                        + n;
                                },
                                None => {},
                            }
                        } else if field == 4 {
                            draft.rate_limit.push(c);
                        }
                        self.config_draft = Some(draft);
                    },
                    None => {},
                }
            },
            _ => {},
        }
    }

    /// Saves the draft: it takes effect and goes to the host.
    fn save_draft(&mut self) -> (r: Vec<Effect>)
        ensures
            (final(self)@, r.deep_view()) == old(self)@.press(old(self)@.save_field()),
    {
        self.config_modal = ConfigModalState::Hidden;
        match self.config_draft.take() {
            Some(d) => {
                let mut draft = d;
                draft.configured = true;
                self.enabled = draft.enabled;
                self.configured = true;
                self.tandem_channels = text::copies(&draft.tandem_channels);
                self.tandem_playlists = text::copies(&draft.tandem_playlists);
                self.config = Some(draft.duplicate());
                one(Effect::UpdateConfig(draft))
            },
            None => nothing(),
        }
    }

    /// The field in focus is pressed.
    fn press(&mut self, field: usize) -> (r: Vec<Effect>)
        requires
            old(self)@.wf(),
            old(self).config_modal == (ConfigModalState::Active {
                selected_field: field,
                editing: false,
                static_field_count: 5,
            }),
        ensures
            (final(self)@, r.deep_view()) == old(self)@.press(field as nat),
    {
        assert(self.cached_channels.len() == self@.cached_channels.len());
        let save_idx: usize = ARCHIVER_STATIC_FIELDS + self.cached_channels.len();
        if field == save_idx {
            return self.save_draft();
        }
        if 1 <= field && field <= 4 {
            self.config_modal = ConfigModalState::Active {
                selected_field: field,
                editing: true,
                static_field_count: ARCHIVER_STATIC_FIELDS,
            };
        }
        match self.config_draft.take() {
            Some(d) => {
                let mut draft = d;
                if field == 0 {
                    draft.enabled = !draft.enabled;
                } else if field == 3 {
                    draft.concurrent_fragments = 0;
                } else if field >= ARCHIVER_STATIC_FIELDS {
                    let i: usize = field - ARCHIVER_STATIC_FIELDS;
                    assert(self@.cached_channels[i as int] == self.cached_channels[i as int].deep_view());
                    if flip(&mut draft.tandem_channels, self.cached_channels[i].0.as_str()) {
                        draft.enabled = true;
                    }
                }
                self.config_draft = Some(draft);
            },
            None => {},
        }
        nothing()
    }

    /// Handle keys while config modal is active.
    fn handle_config_modal_key(&mut self, key: Key) -> (r: Vec<Effect>)
        requires
            old(self)@.wf(),
            old(self)@.takes(key),
        ensures
            final(self)@.wf(),
            (final(self)@, r.deep_view()) == old(self)@.modal_key(key),
    {
        assert(self.cached_channels.len() == self@.cached_channels.len());
        match self.config_modal {
            ConfigModalState::Hidden => nothing(),
            ConfigModalState::Active { selected_field, editing, static_field_count } => {
                if editing {
                    self.edit_key(selected_field, key);
                    return nothing();
                }
                match key {
                    Key::Down | Key::Char('j') => {
                        let save_idx: usize = static_field_count + self.cached_channels.len();
                        let next: usize = if selected_field < save_idx {
                            selected_field + 1
                        } else {
                            save_idx
                        };
                        self.config_modal = ConfigModalState::Active {
                            selected_field: next,
                            editing: false,
                            static_field_count,
                        };
                        nothing()
                    },
                    Key::Up | Key::Char('k') => {
                        let next: usize = if selected_field > 0 {
                            selected_field - 1
                        } else {
                            0
                        };
                        self.config_modal = ConfigModalState::Active {
                            selected_field: next,
                            editing: false,
                            static_field_count,
                        };
                        nothing()
                    },
                    Key::Enter | Key::Char(' ') => self.press(selected_field),
                    Key::Esc => {
                        self.config_modal = ConfigModalState::Hidden;
                        self.config_draft = None;
                        nothing()
                    },
                    _ => nothing(),
                }
            },
        }
    }

    /// Whether a key can be taken: none that takes the last byte off a directory that does not
    /// end in an ASCII character, nor one that takes the number of fragments out of 32 bits.
    pub fn takes_key(&self, key: Key) -> (r: bool)
        ensures
            r == self@.takes(key),
    {
        match self.config_modal {
            ConfigModalState::Active { selected_field, editing, static_field_count } => {
                if !editing {
                    return true;
                }
                match &self.config_draft {
                    Some(d) => match key {
                        Key::Backspace => {
                            if selected_field != 1 {
                                return true;
                            }
                            let chars = text::chars_of(d.archive_dir.as_str());
                            chars.len() == 0 || (chars[chars.len() - 1] as u32) < 0x80
                        },
                        Key::Char(c) => {
                            if selected_field != 3 {
                                return true;
                            }
                            match digit(c) {
                                Some(n) => d.concurrent_fragments as u64 * 10 + n as u64
                                    <= u32::MAX as u64,
                                None => true,
                            }
                        },
                        _ => true,
                    },
                    None => true,
                }
            },
            ConfigModalState::Hidden => true,
        }
    }

    /// The channels of the recordings `picked`, as far as they are known.
    fn channels_for(&self, picked: &Vec<u128>, app: &AppSnapshot) -> (r: Vec<ChannelEntry>)
        ensures
            r.deep_view() == model::channels_for(
                picked@,
                app.deep_view().recordings,
                self.channels.deep_view(),
            ),
    {
        let ghost all = app.deep_view().recordings;
        let ghost own = self.channels.deep_view();
        let mut out: Vec<ChannelEntry> = Vec::new();
        let mut i: usize = 0;
        assert(out.deep_view() == Seq::<ChannelModel>::empty());
        assert(picked@.take(0) == Seq::<u128>::empty());
        while i < picked.len()
            invariant
                i <= picked.len(),
                all == app.deep_view().recordings,
                own == self.channels.deep_view(),
                out.deep_view() == model::channels_for(picked@.take(i as int), all, own),
            decreases picked.len() - i,
        {
            assert(picked@.take(i + 1).drop_last() == picked@.take(i as int));
            assert(picked@.take(i + 1).last() == picked@[i as int]);
            match host::find_recording(&app.recordings, picked[i]) {
                Some(rec) => match find_channel(&self.channels, rec.channel_id.as_str()) {
                    Some(c) => {
                        let ghost before = out.deep_view();
                        let ghost m = c.deep_view();
                        out.push(c.duplicate());
                        assert(out.deep_view() == before.push(m));
                    },
                    None => {},
                },
                None => {},
            }
            i = i + 1;
        }
        assert(picked@.take(picked.len() as int) == picked@);
        out
    }

    /// Takes up the channels of the recordings `picked`, as jobs with fresh ids, and brings the
    /// queue into view if that leads to anything.
    pub fn process_recordings(&mut self, picked: &Vec<u128>, app: &AppSnapshot) -> (r: Vec<Effect>)
        requires
            old(self)@.wf(),
        ensures
            final(self)@.wf(),
            exists|ids: Seq<u128>|
                {
                    &&& #[trigger] model::all_random(ids)
                    &&& ids.len() == model::channels_for(
                        picked@,
                        app.deep_view().recordings,
                        old(self)@.channels,
                    ).len()
                    &&& (final(self)@, r.deep_view()) == old(self)@.process(
                        picked@,
                        app.deep_view().recordings,
                        ids,
                    )
                },
    {
        let channels = self.channels_for(picked, app);
        assert(channels.len() == channels.deep_view().len());
        let fresh = fresh_ids(channels.len());
        let out = self.start_all(&channels, &fresh);
        assert(out.len() == out.deep_view().len());
        if out.len() > 0 {
            self.view = ArchiverView::ArchiveQueue;
        }
        assert(model::all_random(fresh@));
        out
    }

    /// Handle keys in the RecordingPicker view.
    fn handle_picker_key(&mut self, key: Key, app: &AppSnapshot) -> (r: Vec<Effect>)
        requires
            old(self)@.wf(),
        ensures
            final(self)@.wf(),
            !(key is Enter) ==> (final(self)@, r.deep_view()) == old(self)@.picker_key(
                key,
                app.deep_view(),
                Seq::empty(),
                Seq::empty(),
            ),
            key is Enter ==> exists|picked: Seq<u128>, ids: Seq<u128>|
                {
                    &&& #[trigger] old(self)@.relisted(app.deep_view()).picker.may_pick(picked)
                    &&& #[trigger] model::all_random(ids)
                    &&& ids.len() == model::channels_for(
                        picked,
                        app.deep_view().recordings,
                        old(self)@.channels,
                    ).len()
                    &&& (final(self)@, r.deep_view()) == old(self)@.picker_key(
                        key,
                        app.deep_view(),
                        picked,
                        ids,
                    )
                },
    {
        let idle: HashSet<u128> = HashSet::new();
        self.picker.refresh(&app.recordings, &idle);
        assert(self@ == old(self)@.relisted(app.deep_view()));
        match key {
            Key::Tab => {
                self.view = ArchiverView::ChannelList;
            },
            Key::Enter => {
                let ghost s = self@;
                let picked = self.picker.take_picked();
                assert(self@ == (ArchiverModel { picker: s.picker.cleared(), ..s }));
                assert(s.picker.may_pick(picked@));
                return self.process_recordings(&picked, app);
            },
            Key::Esc => {
                self.picker.selections.clear();
                self.view = ArchiverView::ChannelList;
                assert(self.picker.deep_view() == old(self)@.relisted(app.deep_view()).picker.cleared());
            },
            _ => {
                self.picker.on_key(key, &app.recordings, &idle);
            },
        }
        nothing()
    }

    /// Moves the focus in the list in view.
    fn step(&mut self, down: bool)
        requires
            old(self)@.wf(),
        ensures
            final(self)@.wf(),
            final(self)@ == old(self)@.moved(down),
    {
        assert(self.channels.len() == self@.channels.len());
        assert(self.jobs.len() == self@.jobs.len());
        match self.view {
            ArchiverView::ChannelList => {
                if self.channels.len() > 0 {
                    self.selected_channel = step_row(self.selected_channel, self.channels.len(), down);
                }
            },
            ArchiverView::ArchiveQueue => {
                if self.jobs.len() > 0 {
                    self.selected_job = step_row(self.selected_job, self.jobs.len(), down);
                }
            },
            ArchiverView::RecordingPicker => {},
        }
    }

    /// Cancels the job in focus, if it is active.
    fn cancel(&mut self)
        ensures
            final(self)@ == old(self)@.cancelled(),
    {
        let i = self.selected_job;
        assert(self.jobs.len() == self@.jobs.len());
        if i < self.jobs.len() {
            assert(self@.jobs[i as int] == self.jobs[i as int].deep_view());
            if self.jobs[i].state.is_active() {
                let ghost before = self.jobs.deep_view();
                self.jobs[i].state = ArchiveState::Failed;
                self.jobs[i].error = Some("Cancelled by user".to_owned());
                assert(self.jobs.deep_view() == before.update(
                    i as int,
                    JobModel {
                        state: ArchiveState::Failed,
                        error: Some("Cancelled by user"@),
                        ..before[i as int]
                    },
                ));
            }
        }
    }

    /// Handle keys in the list of channels and the queue.
    fn handle_list_key(&mut self, key: Key, app: &AppSnapshot) -> (r: Vec<Effect>)
        requires
            old(self)@.wf(),
            app.channels.len() < usize::MAX - 5,
        ensures
            final(self)@.wf(),
            !(key is Enter) || !(old(self).view is ChannelList) ==> forall|id: u128| #[trigger]
                old(self)@.list_key(key, app.deep_view(), id) == (final(self)@, r.deep_view()),
            key is Enter && old(self).view is ChannelList ==> exists|id: u128| #[trigger]
                ids::is_random_id(id) && (final(self)@, r.deep_view()) == old(self)@.list_key(
                    key,
                    app.deep_view(),
                    id,
                ),
    {
        match key {
            Key::Tab => {
                self.view = match self.view {
                    ArchiverView::ChannelList => ArchiverView::ArchiveQueue,
                    ArchiverView::ArchiveQueue => ArchiverView::RecordingPicker,
                    ArchiverView::RecordingPicker => ArchiverView::ChannelList,
                };
            },
            Key::Char('c') => {
                self.open_config_modal(app);
            },
            Key::Down | Key::Char('j') => {
                self.step(true);
            },
            Key::Up | Key::Char('k') => {
                self.step(false);
            },
            Key::Enter => {
                if matches!(self.view, ArchiverView::ChannelList) {
                    let id = ids::new_id();
                    assert(self.channels.len() == self@.channels.len());
                    if self.selected_channel < self.channels.len() {
                        assert(self@.channels[self.selected_channel as int]
                            == self.channels[self.selected_channel as int].deep_view());
                        let channel = self.channels[self.selected_channel].duplicate();
                        return self.start_archive_as(&channel, id);
                    }
                }
            },
            Key::Char('d') => {
                if matches!(self.view, ArchiverView::ArchiveQueue) {
                    self.cancel();
                }
            },
            Key::Esc => {
                return one(Effect::NavigateBack);
            },
            _ => {},
        }
        nothing()
    }

    /// Takes in a key.
    pub fn on_key(&mut self, key: Key, app: &AppSnapshot) -> (r: Vec<Effect>)
        requires
            old(self)@.wf(),
            app.channels.len() < usize::MAX - 5,
            old(self)@.takes(key),
        ensures
            final(self)@.wf(),
            old(self)@.key_leads_to(key, app.deep_view(), final(self)@, r.deep_view()),
    {
        if !self.configured && matches!(self.config_modal, ConfigModalState::Hidden) {
            self.open_config_modal(app);
        }
        if !matches!(self.config_modal, ConfigModalState::Hidden) {
            return self.handle_config_modal_key(key);
        }
        if matches!(self.view, ArchiverView::RecordingPicker) {
            return self.handle_picker_key(key, app);
        }
        let ghost s = self@;
        let r = self.handle_list_key(key, app);
        proof {
            if s.starts(key) {
                let id = choose|id: u128| #[trigger]
                    ids::is_random_id(id) && (self@, r.deep_view()) == s.list_key(
                        key,
                        app.deep_view(),
                        id,
                    );
                assert(seq![id][0] == id);
            } else {
                let none = Seq::<u128>::empty()[0];
                assert(s.list_key(key, app.deep_view(), none) == (self@, r.deep_view()));
            }
        }
        r
    }

    /// How many jobs are active.
    pub fn active(&self) -> (r: usize)
        ensures
            r == model::active_jobs(self.jobs.deep_view()),
    {
        let mut n: usize = 0;
        let mut i: usize = 0;
        let ghost jobs = self.jobs.deep_view();
        assert(jobs.take(0) == Seq::<JobModel>::empty());
        while i < self.jobs.len()
            invariant
                n <= i <= self.jobs.len(),
                jobs == self.jobs.deep_view(),
                n == model::active_jobs(jobs.take(i as int)),
            decreases self.jobs.len() - i,
        {
            assert(jobs.take(i + 1).drop_last() == jobs.take(i as int));
            assert(jobs.take(i + 1).last() == self.jobs[i as int].deep_view());
            if self.jobs[i].state.is_active() {
                n = n + 1;
            }
            i = i + 1;
        }
        assert(jobs.take(self.jobs.len() as int) == jobs);
        n
    }

    /// The number of active jobs, if any, for the status line.
    pub fn status_line(&self) -> (r: Option<String>)
        ensures
            r.deep_view() == self@.status_line(),
    {
        let active = self.active();
        if active > 0 {
            let n = number::decimal(active as u64);
            Some(text::cat("AR:", n.as_str()))
        } else {
            None
        }
    }

    /// Notes where the plugin keeps its files.
    pub fn set_data_dir(&mut self, data_dir: String)
        requires
            old(self)@.wf(),
        ensures
            final(self)@.wf(),
            final(self)@ == (ArchiverModel { data_dir: data_dir@, ..old(self)@ }),
    {
        self.core.data_dir = data_dir;
    }

    /// The file of the database.
    pub fn database_file(&self) -> (r: JoinedPath)
        ensures
            r.deep_view() == (PathModel { base: self@.data_dir, parts: seq!["archiver.db"@] }),
    {
        let r = JoinedPath::of(self.core.data_dir.as_str()).with("archiver.db");
        assert(r.deep_view() == (PathModel { base: self@.data_dir, parts: seq!["archiver.db"@] }));
        r
    }

    /// Starts the plugin once its database is open.
    pub fn init(&mut self, config: ArchiverConfig)
        requires
            old(self)@.wf(),
        ensures
            final(self)@.wf(),
            final(self)@ == old(self)@.initialized(config.deep_view()),
    {
        self.core.db_open = true;
        self.enabled = config.enabled;
        self.configured = config.configured;
        self.tandem_channels = text::copies(&config.tandem_channels);
        self.tandem_playlists = text::copies(&config.tandem_playlists);
        self.config = Some(config);
    }

    /// Shuts the plugin down.
    pub fn shutdown(&mut self)
        requires
            old(self)@.wf(),
        ensures
            final(self)@.wf(),
            final(self)@ == (ArchiverModel { db_open: false, ..old(self)@ }),
            final(self)@ == old(self)@.shut_down(),
    {
        self.core.db_open = false;
    }
}

/// The row below or above `i` of `n` rows, around the ends.
fn step_row(i: usize, n: usize, down: bool) -> (r: usize)
    requires
        n > 0,
        i < usize::MAX,
    ensures
        r == if down {
            crate::picker::row_below(i as nat, n as nat)
        } else {
            crate::picker::row_above(i as nat, n as nat)
        },
        r < usize::MAX,
{
    if down {
        (i + 1) % n
    } else if i == 0 {
        n - 1
    } else {
        i - 1
    }
}

/// The value of a decimal digit.
fn digit(c: char) -> (r: Option<u32>)
    ensures
        r == model::digit_value(c),
{
    if '0' <= c && c <= '9' {
        Some(c as u32 - '0' as u32)
    } else {
        None
    }
}

/// `n` fresh ids.
fn fresh_ids(n: usize) -> (r: Vec<u128>)
    ensures
        r.len() == n,
        model::all_random(r@),
{
    let mut out: Vec<u128> = Vec::new();
    while out.len() < n
        invariant
            out.len() <= n,
            model::all_random(out@),
        decreases n - out.len(),
    {
        let ghost before = out@;
        out.push(ids::new_id());
        assert forall|i: int| 0 <= i < out@.len() implies ids::is_random_id(
            #[trigger] out@[i],
        ) by {
            if i < before.len() {
                assert(out@[i] == before[i]);
            }
        }
    }
    out
}

} // verus!
