//! The archiver as a state machine: its state, and what each key, event and result does to it.
use vstd::prelude::*;

use crate::archiver::downloader;
use crate::archiver::types::{
    ArchiveState, ArchiverView, EffectModel, EventModel, JobModel, PendingModel, VideoModel,
};
use crate::config;
use crate::config::{ArchiverConfigModel, ConfigModalState};
use crate::host;
use crate::host::{AppModel, ChannelModel, Key, PathModel, PlatformKind, RecordingModel};
use crate::ids;
use crate::number;
use crate::picker;
use crate::picker::PickerModel;
use crate::text;

verus! {

/// The state of the plugin.
#[verifier::ext_equal]
pub struct ArchiverModel {
    pub db_open: bool,
    pub data_dir: Seq<char>,
    pub config: Option<ArchiverConfigModel>,
    pub jobs: Seq<JobModel>,
    pub channels: Seq<ChannelModel>,
    pub selected_channel: nat,
    pub selected_job: nat,
    pub view: ArchiverView,
    pub last_error: Option<Seq<char>>,
    pub enabled: bool,
    pub configured: bool,
    pub tandem_channels: Seq<Seq<char>>,
    pub tandem_playlists: Seq<Seq<char>>,
    pub config_modal: ConfigModalState,
    pub config_draft: Option<ArchiverConfigModel>,
    pub picker: PickerModel,
    pub cached_channels: Seq<(Seq<char>, Seq<char>)>,
}

/// How many fields stand before the channels in the settings: enabled, directory, format,
/// fragments, rate limit.
pub open spec fn static_fields() -> nat {
    5
}

/// The state of a plugin that has just been made.
pub open spec fn fresh() -> ArchiverModel {
    ArchiverModel {
        db_open: false,
        data_dir: Seq::empty(),
        config: None,
        jobs: Seq::empty(),
        channels: Seq::empty(),
        selected_channel: 0,
        selected_job: 0,
        view: ArchiverView::ChannelList,
        last_error: None,
        enabled: false,
        configured: false,
        tandem_channels: Seq::empty(),
        tandem_playlists: Seq::empty(),
        config_modal: ConfigModalState::Hidden,
        config_draft: None,
        picker: PickerModel {
            selected: 0,
            selections: Set::empty(),
            filter: picker::FilterModel::All,
            visible: Seq::empty(),
        },
        cached_channels: Seq::empty(),
    }
}

/// Where the first job with `id` stands, or how many jobs there are.
pub open spec fn job_at(jobs: Seq<JobModel>, id: u128) -> int
    decreases jobs.len(),
{
    if jobs.len() == 0 {
        0
    } else {
        let k = job_at(jobs.drop_last(), id);
        if k < jobs.len() - 1 || jobs.last().id == id {
            k
        } else {
            k + 1
        }
    }
}

/// `job_at` is the first match.
pub proof fn lemma_job_at(jobs: Seq<JobModel>, id: u128)
    ensures
        0 <= job_at(jobs, id) <= jobs.len(),
        job_at(jobs, id) < jobs.len() ==> jobs[job_at(jobs, id)].id == id,
        forall|j: int| 0 <= j < job_at(jobs, id) ==> (#[trigger] jobs[j]).id != id,
    decreases jobs.len(),
{
    if jobs.len() > 0 {
        let t = jobs.drop_last();
        lemma_job_at(t, id);
        assert forall|j: int| 0 <= j < job_at(jobs, id) implies (#[trigger] jobs[j]).id != id by {
            if j < t.len() {
                assert(t[j] == jobs[j]);
            }
        }
        if job_at(t, id) < t.len() {
            assert(t[job_at(t, id)] == jobs[job_at(t, id)]);
        }
    }
}

/// The first match is where no earlier one is.
pub proof fn lemma_job_at_is(jobs: Seq<JobModel>, id: u128, k: int)
    requires
        0 <= k <= jobs.len(),
        k < jobs.len() ==> jobs[k].id == id,
        forall|j: int| 0 <= j < k ==> (#[trigger] jobs[j]).id != id,
    ensures
        job_at(jobs, id) == k,
{
    lemma_job_at(jobs, id);
    let j = job_at(jobs, id);
    if j < k {
        assert(jobs[j].id != id);
    }
}

/// The first channel with `id`.
pub open spec fn channel_with(channels: Seq<ChannelModel>, id: Seq<char>) -> Option<ChannelModel>
    decreases channels.len(),
{
    if channels.len() == 0 {
        None
    } else {
        match channel_with(channels.drop_last(), id) {
            Some(c) => Some(c),
            None => if channels.last().id == id {
                Some(channels.last())
            } else {
                None
            },
        }
    }
}

/// The address of a channel's videos, on the platforms that can be archived.
pub open spec fn channel_url_of(c: ChannelModel) -> Option<Seq<char>> {
    match c.platform.kind {
        PlatformKind::Twitch => Some(
            "https://www.twitch.tv/"@ + c.name + "/videos?filter=archives"@,
        ),
        PlatformKind::YouTube => Some("https://www.youtube.com/@"@ + c.name + "/videos"@),
        PlatformKind::Other => None,
    }
}

/// How many jobs are active.
pub open spec fn active_jobs(jobs: Seq<JobModel>) -> nat
    decreases jobs.len(),
{
    if jobs.len() == 0 {
        0
    } else {
        active_jobs(jobs.drop_last()) + if jobs.last().state.active() {
            1nat
        } else {
            0nat
        }
    }
}

/// The value of a decimal digit.
pub open spec fn digit_value(c: char) -> Option<u32> {
    if '0' <= c <= '9' {
        Some((c as u32 - '0' as u32) as u32)
    } else {
        None
    }
}

/// The channels of the recordings `ids`, as far as the host knows the recordings and the plugin
/// the channels.
pub open spec fn channels_for(
    ids: Seq<u128>,
    all: Seq<RecordingModel>,
    channels: Seq<ChannelModel>,
) -> Seq<ChannelModel>
    decreases ids.len(),
{
    if ids.len() == 0 {
        Seq::empty()
    } else {
        let before = channels_for(ids.drop_last(), all, channels);
        match host::recording_with(all, ids.last()) {
            Some(r) => match channel_with(channels, r.channel_id) {
                Some(c) => before.push(c),
                None => before,
            },
            None => before,
        }
    }
}

impl ArchiverModel {
    // -----------------------------------------------------------------------
    // Jobs
    // -----------------------------------------------------------------------

    /// Whether there is a job with `id`.
    pub open spec fn has_job(self, id: u128) -> bool {
        job_at(self.jobs, id) < self.jobs.len()
    }

    /// The job with `id`, if there is one.
    pub open spec fn job(self, id: u128) -> JobModel {
        self.jobs[job_at(self.jobs, id)]
    }

    /// With `job` in the place of the job with `id`, if there is one.
    pub open spec fn put(self, id: u128, job: JobModel) -> ArchiverModel {
        if self.has_job(id) {
            ArchiverModel { jobs: self.jobs.update(job_at(self.jobs, id), job), ..self }
        } else {
            self
        }
    }

    /// The job in another state.
    pub open spec fn staged(self, id: u128, state: ArchiveState) -> ArchiverModel {
        self.put(id, JobModel { state, ..self.job(id) })
    }

    /// An effect on the database, if it is open and there is a job with `id`.
    pub open spec fn if_job(self, id: u128, effect: EffectModel) -> Seq<EffectModel> {
        if self.has_job(id) && self.db_open {
            seq![effect]
        } else {
            Seq::empty()
        }
    }

    /// A channel is taken up, as the job `id`: it is scanned. Without a configuration, or on a
    /// platform that cannot be archived, it is not.
    pub open spec fn start_archive_as(self, c: ChannelModel, id: u128) -> (
        ArchiverModel,
        Seq<EffectModel>,
    ) {
        match self.config {
            None => (self, seq![EffectModel::SetStatus("Archiver: no config"@)]),
            Some(cfg) => match channel_url_of(c) {
                None => (self, Seq::empty()),
                Some(url) => (
                    ArchiverModel {
                        jobs: self.jobs.push(
                            JobModel {
                                id,
                                channel_name: c.display_name,
                                channel_url: url,
                                platform: c.platform,
                                archive_dir: PathModel {
                                    base: cfg.archive_dir,
                                    parts: seq![c.display_name],
                                },
                                state: ArchiveState::Scanning,
                                total_videos: 0,
                                completed_videos: 0,
                                current_video: None,
                                error: None,
                            },
                        ),
                        ..self
                    },
                    seq![
                        EffectModel::Scan {
                            job_id: id,
                            url,
                            archive_txt: PathModel {
                                base: cfg.archive_dir,
                                parts: seq![c.display_name, "archive.txt"@],
                            },
                        },
                    ],
                ),
            },
        }
    }

    /// Channels are taken up one after the other, as the jobs `ids`.
    pub open spec fn start_all(self, channels: Seq<ChannelModel>, ids: Seq<u128>) -> (
        ArchiverModel,
        Seq<EffectModel>,
    )
        decreases channels.len(),
    {
        if channels.len() == 0 {
            (self, Seq::empty())
        } else {
            let (before, effects) = self.start_all(channels.drop_last(), ids);
            let (after, more) = before.start_archive_as(
                channels.last(),
                ids[channels.len() - 1],
            );
            (after, effects + more)
        }
    }

    /// The job goes on to its next video, or is done.
    pub open spec fn start_next_download(self, id: u128) -> (ArchiverModel, Seq<EffectModel>) {
        if !self.has_job(id) {
            (self, Seq::empty())
        } else if self.job(id).completed_videos >= self.job(id).total_videos {
            (
                self.staged(id, ArchiveState::Complete),
                seq![
                    EffectModel::SetStatus(
                        "Archiver: "@ + self.job(id).channel_name + " complete ("@
                            + number::decimal_of(self.job(id).total_videos) + " videos)"@,
                    ),
                ],
            )
        } else {
            (
                self,
                self.if_job(
                    id,
                    EffectModel::LoadPending { job_id: id, url: self.job(id).channel_url },
                ),
            )
        }
    }

    /// The format and the number of fragments for downloads.
    pub open spec fn download_settings(self, defaults: ArchiverConfigModel) -> (Seq<char>, u32) {
        match self.config {
            Some(c) => (c.format, c.concurrent_fragments),
            None => (defaults.format, defaults.concurrent_fragments),
        }
    }

    /// The videos that have not been downloaded have been read: the first one is downloaded; where
    /// there are none, the job is done. Where they could not be read, nothing happens.
    pub open spec fn pending_loaded(
        self,
        id: u128,
        found: Option<Seq<PendingModel>>,
        defaults: ArchiverConfigModel,
    ) -> (ArchiverModel, Seq<EffectModel>) {
        match found {
            None => (self, Seq::empty()),
            Some(videos) => if !self.has_job(id) {
                (self, Seq::empty())
            } else if videos.len() == 0 {
                (self.staged(id, ArchiveState::Complete), Seq::empty())
            } else {
                let v = videos[0];
                let j = self.job(id);
                let (format, concurrent_fragments) = self.download_settings(defaults);
                (
                    self.put(id, JobModel { current_video: Some(v.title), ..j }),
                    seq![
                        EffectModel::Download {
                            job_id: id,
                            video_id: v.video_id,
                            url: downloader::video_url_of(
                                v.video_id,
                                text::lowercase(j.platform.label),
                            ),
                            output_dir: j.archive_dir,
                            archive_txt: PathModel {
                                base: j.archive_dir.base,
                                parts: j.archive_dir.parts.push("archive.txt"@),
                            },
                            format,
                            concurrent_fragments,
                            playlist: v.playlist,
                        },
                    ],
                )
            },
        }
    }

    /// The videos of a channel have been listed: they are stored, and the first one is sought.
    /// Where there are none, the channel is fully archived.
    pub open spec fn scan_complete(self, id: u128, videos: Seq<VideoModel>) -> (
        ArchiverModel,
        Seq<EffectModel>,
    ) {
        let j = self.job(id);
        let counted = self.put(
            id,
            JobModel { total_videos: videos.len(), state: ArchiveState::Downloading, ..j },
        );
        let stored = self.if_job(
            id,
            EffectModel::StoreScan {
                name: j.channel_name,
                url: j.channel_url,
                platform: j.platform.label,
                archive_dir: match self.config {
                    Some(c) => c.archive_dir,
                    None => Seq::empty(),
                },
                videos,
            },
        );
        if videos.len() == 0 {
            (
                counted.staged(id, ArchiveState::Complete),
                stored.push(EffectModel::SetStatus("Archiver: channel fully archived"@)),
            )
        } else {
            let (after, more) = counted.start_next_download(id);
            (after, stored + more)
        }
    }

    /// A video has been downloaded: it is counted and noted, and the next one is sought.
    pub open spec fn video_downloaded(self, id: u128, video_id: Seq<char>) -> (
        ArchiverModel,
        Seq<EffectModel>,
    ) {
        let j = self.job(id);
        let (after, more) = self.put(
            id,
            JobModel { completed_videos: j.completed_videos + 1, ..j },
        ).start_next_download(id);
        (
            after,
            self.if_job(id, EffectModel::MarkDownloaded { url: j.channel_url, video_id }) + more,
        )
    }

    /// A job has failed: it is marked, and the user is told.
    pub open spec fn job_error(self, id: u128, error: Seq<char>) -> (
        ArchiverModel,
        Seq<EffectModel>,
    ) {
        (
            ArchiverModel {
                last_error: Some(error),
                ..self.put(
                    id,
                    JobModel { state: ArchiveState::Failed, error: Some(error), ..self.job(id) },
                )
            },
            seq![EffectModel::SetStatus("Archiver error: "@ + error)],
        )
    }

    /// What a report leads to.
    pub open spec fn archiver_event(self, event: EventModel) -> (ArchiverModel, Seq<EffectModel>) {
        match event {
            EventModel::ScanComplete { job_id, videos } => self.scan_complete(job_id, videos),
            EventModel::VideoDownloaded { job_id, video_id } => self.video_downloaded(
                job_id,
                video_id,
            ),
            EventModel::JobComplete { job_id } => (
                self.staged(job_id, ArchiveState::Complete),
                Seq::empty(),
            ),
            EventModel::JobError { job_id, error } => self.job_error(job_id, error),
        }
    }

    /// The channel that a recording's end leads to: if the plugin is enabled, the recording ended
    /// normally and is handled in tandem, the channel it is from.
    pub open spec fn tandem_channel(self, id: u128, finished: bool, app: AppModel) -> Option<
        ChannelModel,
    > {
        match host::recording_with(app.recordings, id) {
            Some(r) => if finished && self.enabled && host::in_tandem(
                r,
                self.tandem_channels,
                self.tandem_playlists,
            ) {
                channel_with(self.channels, r.channel_id)
            } else {
                None
            },
            None => None,
        }
    }

    /// What a recording's end may lead to: one state and one list of effects, but for the id of a
    /// new job.
    pub open spec fn finish_leads_to(
        self,
        id: u128,
        finished: bool,
        app: AppModel,
        after: ArchiverModel,
        effects: Seq<EffectModel>,
    ) -> bool {
        match self.tandem_channel(id, finished, app) {
            Some(c) => exists|fresh_id: u128| #[trigger]
                ids::is_random_id(fresh_id) && (after, effects) == self.start_archive_as(
                    c,
                    fresh_id,
                ),
            None => (after, effects) == (self, Seq::<EffectModel>::empty()),
        }
    }

    // -----------------------------------------------------------------------
    // Settings
    // -----------------------------------------------------------------------

    /// The settings are opened, with a draft of the current ones.
    pub open spec fn open_config(self, app: AppModel) -> ArchiverModel {
        ArchiverModel {
            cached_channels: host::checklist_of(app.channels),
            config_draft: Some(
                match self.config {
                    Some(c) => c,
                    None => app.archiver_defaults,
                },
            ),
            config_modal: ConfigModalState::Active {
                selected_field: 0,
                editing: false,
                static_field_count: 5,
            },
            ..self
        }
    }

    /// The settings in another place.
    pub open spec fn at_field(self, field: nat, editing: bool) -> ArchiverModel {
        ArchiverModel {
            config_modal: ConfigModalState::Active {
                selected_field: field as usize,
                editing,
                static_field_count: 5,
            },
            ..self
        }
    }

    /// With another draft, if there is one.
    pub open spec fn redrafted(self, draft: ArchiverConfigModel) -> ArchiverModel {
        if self.config_draft is Some {
            ArchiverModel { config_draft: Some(draft), ..self }
        } else {
            self
        }
    }

    /// The place of the Save button.
    pub open spec fn save_field(self) -> nat {
        static_fields() + self.cached_channels.len()
    }

    /// A key while a field is edited.
    pub open spec fn edit_key(self, field: nat, key: Key) -> ArchiverModel {
        let d = self.config_draft->0;
        match key {
            Key::Esc | Key::Enter => self.at_field(field, false),
            Key::Backspace => if field == 1 {
                self.redrafted(
                    ArchiverConfigModel { archive_dir: text::popped(d.archive_dir), ..d },
                )
            } else if field == 2 {
                self.redrafted(ArchiverConfigModel { format: text::popped(d.format), ..d })
            } else if field == 4 {
                self.redrafted(ArchiverConfigModel { rate_limit: text::popped(d.rate_limit), ..d })
            } else {
                self
            },
            Key::Char(c) => if field == 1 {
                self.redrafted(ArchiverConfigModel { archive_dir: d.archive_dir.push(c), ..d })
            } else if field == 2 {
                self.redrafted(ArchiverConfigModel { format: d.format.push(c), ..d })
            } else if field == 3 {
                match digit_value(c) {
                    Some(n) => self.redrafted(
                        ArchiverConfigModel {
                            concurrent_fragments: (d.concurrent_fragments * 10 + n) as u32,
                            ..d
                        },
                    ),
                    None => self,
                }
            } else if field == 4 {
                self.redrafted(ArchiverConfigModel { rate_limit: d.rate_limit.push(c), ..d })
            } else {
                self
            },
            _ => self,
        }
    }

    /// A channel of the draft flipped; adding one enables the plugin.
    pub open spec fn flip_channel(self, d: ArchiverConfigModel, i: int) -> ArchiverConfigModel {
        let key = self.cached_channels[i].0;
        ArchiverConfigModel {
            tandem_channels: config::flipped(d.tandem_channels, key),
            enabled: d.enabled || !d.tandem_channels.contains(key),
            ..d
        }
    }

    /// The field in focus is pressed.
    pub open spec fn press(self, field: nat) -> (ArchiverModel, Seq<EffectModel>) {
        let d = self.config_draft->0;
        if field == self.save_field() {
            if self.config_draft is Some {
                let saved = ArchiverConfigModel { configured: true, ..d };
                (
                    ArchiverModel {
                        config_draft: None,
                        enabled: d.enabled,
                        configured: true,
                        tandem_channels: d.tandem_channels,
                        tandem_playlists: d.tandem_playlists,
                        config: Some(saved),
                        config_modal: ConfigModalState::Hidden,
                        ..self
                    },
                    seq![EffectModel::UpdateConfig(saved)],
                )
            } else {
                (ArchiverModel { config_modal: ConfigModalState::Hidden, ..self }, Seq::empty())
            }
        } else {
            (
                if field == 0 {
                    self.redrafted(ArchiverConfigModel { enabled: !d.enabled, ..d })
                } else if field >= static_fields() {
                    self.redrafted(self.flip_channel(d, field - static_fields()))
                } else if field == 3 {
                    self.at_field(field, true).redrafted(
                        ArchiverConfigModel { concurrent_fragments: 0, ..d },
                    )
                } else {
                    self.at_field(field, true)
                },
                Seq::empty(),
            )
        }
    }

    /// A key while the settings are open.
    pub open spec fn modal_key(self, key: Key) -> (ArchiverModel, Seq<EffectModel>) {
        match self.config_modal {
            ConfigModalState::Hidden => (self, Seq::empty()),
            ConfigModalState::Active { selected_field, editing, static_field_count } => if editing {
                (self.edit_key(selected_field as nat, key), Seq::empty())
            } else {
                match key {
                    Key::Down | Key::Char('j') => (
                        self.at_field(
                            if selected_field < self.save_field() {
                                (selected_field + 1) as nat
                            } else {
                                self.save_field()
                            },
                            false,
                        ),
                        Seq::empty(),
                    ),
                    Key::Up | Key::Char('k') => (
                        self.at_field(
                            if selected_field > 0 {
                                (selected_field - 1) as nat
                            } else {
                                0
                            },
                            false,
                        ),
                        Seq::empty(),
                    ),
                    Key::Enter | Key::Char(' ') => self.press(selected_field as nat),
                    Key::Esc => (
                        ArchiverModel {
                            config_modal: ConfigModalState::Hidden,
                            config_draft: None,
                            ..self
                        },
                        Seq::empty(),
                    ),
                    _ => (self, Seq::empty()),
                }
            },
        }
    }

    /// Whether a key can be taken: none that takes the last byte off a directory that does not
    /// end in an ASCII character, nor one that takes the number of fragments out of 32 bits.
    pub open spec fn takes(self, key: Key) -> bool {
        if self.config_modal matches ConfigModalState::Active {
            selected_field,
            editing,
            static_field_count,
        } && editing && self.config_draft is Some {
            let d = self.config_draft->0;
            let field = self.config_modal->selected_field;
            match key {
                Key::Backspace => field == 1 && d.archive_dir.len() > 0 ==> (
                d.archive_dir.last() as u32) < 0x80,
                Key::Char(c) => field == 3 ==> match digit_value(c) {
                    Some(n) => d.concurrent_fragments * 10 + n <= u32::MAX,
                    None => true,
                },
                _ => true,
            }
        } else {
            true
        }
    }

    // -----------------------------------------------------------------------
    // Keys
    // -----------------------------------------------------------------------

    /// The picker listed anew.
    pub open spec fn relisted(self, app: AppModel) -> ArchiverModel {
        ArchiverModel { picker: self.picker.refreshed(app.recordings, Set::empty()), ..self }
    }

    /// The channels of the recordings `picked` are taken up as the jobs `ids`; the queue comes into
    /// view if that leads to anything.
    pub open spec fn process(
        self,
        picked: Seq<u128>,
        all: Seq<RecordingModel>,
        ids: Seq<u128>,
    ) -> (ArchiverModel, Seq<EffectModel>) {
        let (after, effects) = self.start_all(channels_for(picked, all, self.channels), ids);
        if effects.len() > 0 {
            (ArchiverModel { view: ArchiverView::ArchiveQueue, ..after }, effects)
        } else {
            (after, effects)
        }
    }

    /// A key in the picker view. `picked` is the order in which the picked recordings are handled,
    /// `ids` are the ids of new jobs.
    pub open spec fn picker_key(
        self,
        key: Key,
        app: AppModel,
        picked: Seq<u128>,
        ids: Seq<u128>,
    ) -> (ArchiverModel, Seq<EffectModel>) {
        let s = self.relisted(app);
        match key {
            Key::Tab => (ArchiverModel { view: ArchiverView::ChannelList, ..s }, Seq::empty()),
            Key::Enter => ArchiverModel { picker: s.picker.cleared(), ..s }.process(
                picked,
                app.recordings,
                ids,
            ),
            Key::Esc => (
                ArchiverModel {
                    picker: s.picker.cleared(),
                    view: ArchiverView::ChannelList,
                    ..s
                },
                Seq::empty(),
            ),
            _ => (
                ArchiverModel { picker: s.picker.moved(key, app.recordings, Set::empty()), ..s },
                Seq::empty(),
            ),
        }
    }

    /// The job in focus is cancelled, if it is active.
    pub open spec fn cancelled(self) -> ArchiverModel {
        if self.selected_job < self.jobs.len() && self.jobs[self.selected_job as int].state.active() {
            ArchiverModel {
                jobs: self.jobs.update(
                    self.selected_job as int,
                    JobModel {
                        state: ArchiveState::Failed,
                        error: Some("Cancelled by user"@),
                        ..self.jobs[self.selected_job as int]
                    },
                ),
                ..self
            }
        } else {
            self
        }
    }

    /// The focus moved in the list in view: `down` or up.
    pub open spec fn moved(self, down: bool) -> ArchiverModel {
        match self.view {
            ArchiverView::ChannelList => if self.channels.len() > 0 {
                ArchiverModel {
                    selected_channel: if down {
                        picker::row_below(self.selected_channel, self.channels.len())
                    } else {
                        picker::row_above(self.selected_channel, self.channels.len())
                    },
                    ..self
                }
            } else {
                self
            },
            ArchiverView::ArchiveQueue => if self.jobs.len() > 0 {
                ArchiverModel {
                    selected_job: if down {
                        picker::row_below(self.selected_job, self.jobs.len())
                    } else {
                        picker::row_above(self.selected_job, self.jobs.len())
                    },
                    ..self
                }
            } else {
                self
            },
            ArchiverView::RecordingPicker => self,
        }
    }

    /// A key in the list of channels or the queue. `fresh_id` is the id of a new job.
    pub open spec fn list_key(self, key: Key, app: AppModel, fresh_id: u128) -> (
        ArchiverModel,
        Seq<EffectModel>,
    ) {
        match key {
            Key::Tab => (
                ArchiverModel {
                    view: match self.view {
                        ArchiverView::ChannelList => ArchiverView::ArchiveQueue,
                        ArchiverView::ArchiveQueue => ArchiverView::RecordingPicker,
                        ArchiverView::RecordingPicker => ArchiverView::ChannelList,
                    },
                    ..self
                },
                Seq::empty(),
            ),
            Key::Char('c') => (self.open_config(app), Seq::empty()),
            Key::Down | Key::Char('j') => (self.moved(true), Seq::empty()),
            Key::Up | Key::Char('k') => (self.moved(false), Seq::empty()),
            Key::Enter => if self.view is ChannelList && self.selected_channel
                < self.channels.len() {
                self.start_archive_as(self.channels[self.selected_channel as int], fresh_id)
            } else {
                (self, Seq::empty())
            },
            Key::Char('d') => (
                if self.view is ArchiveQueue {
                    self.cancelled()
                } else {
                    self
                },
                Seq::empty(),
            ),
            Key::Esc => (self, seq![EffectModel::NavigateBack]),
            _ => (self, Seq::empty()),
        }
    }

    /// A key. `picked` is the order in which the picker's recordings are handled and `ids` are the
    /// ids of new jobs, should the key lead there.
    pub open spec fn on_key(self, key: Key, app: AppModel, picked: Seq<u128>, ids: Seq<u128>) -> (
        ArchiverModel,
        Seq<EffectModel>,
    ) {
        let s = if !self.configured && self.config_modal is Hidden {
            self.open_config(app)
        } else {
            self
        };
        if !(s.config_modal is Hidden) {
            s.modal_key(key)
        } else if s.view is RecordingPicker {
            s.picker_key(key, app, picked, ids)
        } else {
            s.list_key(key, app, ids[0])
        }
    }

    /// Whether a key hands the picked recordings over.
    pub open spec fn picks(self, key: Key) -> bool {
        &&& self.configured
        &&& self.config_modal is Hidden
        &&& self.view is RecordingPicker
        &&& key is Enter
    }

    /// Whether a key takes up the channel in focus.
    pub open spec fn starts(self, key: Key) -> bool {
        &&& self.configured
        &&& self.config_modal is Hidden
        &&& self.view is ChannelList
        &&& key is Enter
    }

    /// What a key may lead to: one state and one list of effects, but for the ids of new jobs and
    /// the order in which picked recordings are handled.
    pub open spec fn key_leads_to(
        self,
        key: Key,
        app: AppModel,
        after: ArchiverModel,
        effects: Seq<EffectModel>,
    ) -> bool {
        if self.picks(key) {
            exists|picked: Seq<u128>, ids: Seq<u128>|
                {
                    &&& #[trigger] self.relisted(app).picker.may_pick(picked)
                    &&& #[trigger] all_random(ids)
                    &&& ids.len() == channels_for(picked, app.recordings, self.channels).len()
                    &&& (after, effects) == self.on_key(key, app, picked, ids)
                }
        } else if self.starts(key) {
            exists|id: u128| #[trigger]
                ids::is_random_id(id) && (after, effects) == self.on_key(
                    key,
                    app,
                    Seq::empty(),
                    seq![id],
                )
        } else {
            (after, effects) == self.on_key(key, app, Seq::empty(), Seq::empty())
        }
    }

    /// The status line: how many jobs are active, if any.
    pub open spec fn status_line(self) -> Option<Seq<char>> {
        if active_jobs(self.jobs) > 0 {
            Some("AR:"@ + number::decimal_of(active_jobs(self.jobs)))
        } else {
            None
        }
    }

    // -----------------------------------------------------------------------
    // Start and end
    // -----------------------------------------------------------------------

    /// The plugin started with a configuration, its database open.
    pub open spec fn initialized(self, c: ArchiverConfigModel) -> ArchiverModel {
        ArchiverModel {
            db_open: true,
            config: Some(c),
            enabled: c.enabled,
            configured: c.configured,
            tandem_channels: c.tandem_channels,
            tandem_playlists: c.tandem_playlists,
            ..self
        }
    }

    /// The host's channels, told anew.
    pub open spec fn with_channels(self, channels: Seq<ChannelModel>) -> ArchiverModel {
        ArchiverModel { channels, ..self }
    }

    /// The plugin shut down.
    pub open spec fn shut_down(self) -> ArchiverModel {
        ArchiverModel { db_open: false, ..self }
    }

    /// What holds between any two calls.
    pub open spec fn wf(self) -> bool {
        &&& self.selected_channel < usize::MAX
        &&& self.selected_job < usize::MAX
        &&& self.config_modal matches ConfigModalState::Active {
            selected_field,
            editing,
            static_field_count,
        } ==> {
            &&& static_field_count == 5
            &&& selected_field <= self.save_field()
            &&& self.save_field() < usize::MAX
        }
    }
}

/// Whether all of `ids` are random ids.
pub open spec fn all_random(ids: Seq<u128>) -> bool {
    forall|i: int| 0 <= i < ids.len() ==> crate::ids::is_random_id(#[trigger] ids[i])
}

} // verus!
