//! The plugin as a state machine: its state, and what each key, event and result does to it.
use vstd::prelude::*;

use crate::config;
use crate::config::{AnalysisConfigModel, ConfigModalState, CrunchrConfigModel};
use crate::crunchr::analysis;
use crate::crunchr::db;
use crate::crunchr::transcribe::BackendModel;
use crate::crunchr::types::{
    AnalysisModel, ChunkModel, CrunchrView, EffectModel, EventModel, HitModel, JobModel,
    PipelineState, RecordingInfoModel, RowsModel, SearchMode, SegmentModel,
};
use crate::host;
use crate::host::{AppModel, Key, PathModel, RecordingModel};
use crate::ids;
use crate::number;
use crate::number::Double;
use crate::picker;
use crate::picker::PickerModel;
use crate::text;

verus! {

/// The state of the plugin.
#[verifier::ext_equal]
pub struct CrunchrModel {
    pub db_open: bool,
    pub data_dir: Seq<char>,
    pub in_flight: Set<u128>,
    pub backend: Option<BackendModel>,
    pub analysis_config: Option<AnalysisConfigModel>,
    pub queue: Seq<JobModel>,
    pub search_results: Seq<HitModel>,
    pub search_query: Seq<char>,
    pub search_mode: SearchMode,
    pub selected_result: nat,
    pub input_active: bool,
    pub word_frequencies: Seq<(Seq<char>, i64)>,
    pub backend_available: bool,
    pub last_error: Option<Seq<char>>,
    pub selected_analysis: Option<AnalysisModel>,
    pub selected_speaker: Option<Seq<char>>,
    pub prev_selected: nat,
    pub enabled: bool,
    pub configured: bool,
    pub tandem_channels: Seq<Seq<char>>,
    pub tandem_playlists: Seq<Seq<char>>,
    pub config_modal: ConfigModalState,
    pub config_draft: Option<CrunchrConfigModel>,
    pub view: CrunchrView,
    pub picker: PickerModel,
    pub cached_channels: Seq<(Seq<char>, Seq<char>)>,
}

/// How many fields stand before the channels in the settings: enabled, backend, key, endpoint,
/// Whisper model, analysis.
pub open spec fn static_fields() -> nat {
    6
}

/// Where the first job of a recording stands in a queue, or the length of the queue.
pub open spec fn job_at(queue: Seq<JobModel>, id: u128) -> int
    decreases queue.len(),
{
    if queue.len() == 0 {
        0
    } else {
        let k = job_at(queue.drop_last(), id);
        if k < queue.len() - 1 || queue.last().recording_id == id {
            k
        } else {
            k + 1
        }
    }
}

/// `job_at` is the first match.
pub proof fn lemma_job_at(queue: Seq<JobModel>, id: u128)
    ensures
        0 <= job_at(queue, id) <= queue.len(),
        job_at(queue, id) < queue.len() ==> queue[job_at(queue, id)].recording_id == id,
        forall|j: int| 0 <= j < job_at(queue, id) ==> (#[trigger] queue[j]).recording_id != id,
    decreases queue.len(),
{
    if queue.len() > 0 {
        let t = queue.drop_last();
        lemma_job_at(t, id);
        assert forall|j: int| 0 <= j < job_at(queue, id) implies (#[trigger] queue[j]).recording_id
            != id by {
            if j < t.len() {
                assert(t[j] == queue[j]);
            }
        }
        if job_at(t, id) < t.len() {
            assert(t[job_at(t, id)] == queue[job_at(t, id)]);
        }
    }
}

/// The first match is where no earlier one is.
pub proof fn lemma_job_at_is(queue: Seq<JobModel>, id: u128, k: int)
    requires
        0 <= k <= queue.len(),
        k < queue.len() ==> queue[k].recording_id == id,
        forall|j: int| 0 <= j < k ==> (#[trigger] queue[j]).recording_id != id,
    ensures
        job_at(queue, id) == k,
{
    lemma_job_at(queue, id);
    let j = job_at(queue, id);
    if j < k {
        assert(queue[j].recording_id != id);
    }
}

/// The segments as they come out of the database.
pub open spec fn stored_segments(rows: Seq<(usize, Double, Double, Seq<char>)>) -> Seq<SegmentModel> {
    rows.map_values(
        |r: (usize, Double, Double, Seq<char>)|
            SegmentModel {
                index: r.0 as nat,
                start_sec: r.1,
                end_sec: r.2,
                text: r.3,
                speaker: None,
                confidence: None,
            },
    )
}

/// How many jobs are not over.
pub open spec fn pending_jobs(queue: Seq<JobModel>) -> nat
    decreases queue.len(),
{
    if queue.len() == 0 {
        0
    } else {
        pending_jobs(queue.drop_last()) + if queue.last().state.over() {
            0nat
        } else {
            1nat
        }
    }
}

/// The state of a plugin that has just been made.
pub open spec fn fresh() -> CrunchrModel {
    CrunchrModel {
        db_open: false,
        data_dir: Seq::empty(),
        in_flight: Set::empty(),
        backend: None,
        analysis_config: None,
        queue: Seq::empty(),
        search_results: Seq::empty(),
        search_query: Seq::empty(),
        search_mode: SearchMode::FullText,
        selected_result: 0,
        input_active: false,
        word_frequencies: Seq::empty(),
        backend_available: false,
        last_error: None,
        selected_analysis: None,
        selected_speaker: None,
        prev_selected: usize::MAX as nat,
        enabled: false,
        configured: false,
        tandem_channels: Seq::empty(),
        tandem_playlists: Seq::empty(),
        config_modal: ConfigModalState::Hidden,
        config_draft: None,
        view: CrunchrView::Search,
        picker: PickerModel {
            selected: 0,
            selections: Set::empty(),
            filter: picker::FilterModel::All,
            visible: Seq::empty(),
        },
        cached_channels: Seq::empty(),
    }
}

impl CrunchrModel {
    // -----------------------------------------------------------------------
    // Parts
    // -----------------------------------------------------------------------

    /// Whether a recording has a job.
    pub open spec fn queued(self, id: u128) -> bool {
        job_at(self.queue, id) < self.queue.len()
    }

    /// The job of a recording that has one.
    pub open spec fn job(self, id: u128) -> JobModel {
        self.queue[job_at(self.queue, id)]
    }

    /// With `job` in the place of the recording's job, if it has one.
    pub open spec fn put(self, id: u128, job: JobModel) -> CrunchrModel {
        if self.queued(id) {
            CrunchrModel { queue: self.queue.update(job_at(self.queue, id), job), ..self }
        } else {
            self
        }
    }

    /// The recording's job in another state.
    pub open spec fn staged(self, id: u128, state: PipelineState) -> CrunchrModel {
        self.put(id, JobModel { state, ..self.job(id) })
    }

    /// The recording's job failed.
    pub open spec fn failed(self, id: u128, error: Seq<char>) -> CrunchrModel {
        self.put(id, JobModel { state: PipelineState::Failed, error: Some(error), ..self.job(id) })
    }

    /// The recording's job with its audio file.
    pub open spec fn with_audio(self, id: u128, path: Seq<char>) -> CrunchrModel {
        self.put(id, JobModel { audio_path: Some(path), ..self.job(id) })
    }

    /// The recording no longer in flight.
    pub open spec fn landed(self, id: u128) -> CrunchrModel {
        CrunchrModel { in_flight: self.in_flight.remove(id), ..self }
    }

    /// An effect on the database, if there is one.
    pub open spec fn if_db(self, effect: EffectModel) -> Seq<EffectModel> {
        if self.db_open {
            seq![effect]
        } else {
            Seq::empty()
        }
    }

    /// The status of a recording written to the database.
    pub open spec fn status(self, id: u128, status: Seq<char>) -> Seq<EffectModel> {
        self.if_db(
            EffectModel::UpdateStatus { key: ids::id_text_of(id), status, error: None },
        )
    }

    /// The word counts read anew.
    pub open spec fn top_words(self) -> Seq<EffectModel> {
        self.if_db(EffectModel::LoadTopWords { limit: 20 })
    }

    // -----------------------------------------------------------------------
    // The pipeline
    // -----------------------------------------------------------------------

    /// A new job for the recording, and its first stage.
    pub open spec fn enqueued(
        self,
        id: u128,
        channel_name: Seq<char>,
        title: Seq<char>,
        video_path: Seq<char>,
    ) -> (CrunchrModel, Seq<EffectModel>) {
        CrunchrModel {
            queue: self.queue.push(
                JobModel {
                    recording_id: id,
                    channel_name,
                    title,
                    video_path,
                    audio_path: None,
                    state: PipelineState::Pending,
                    error: None,
                },
            ),
            ..self
        }.start_next_stage(id)
    }

    /// A recording is taken into the pipeline, unless it is there already.
    pub open spec fn queue_recording(
        self,
        id: u128,
        channel_name: Seq<char>,
        title: Seq<char>,
        video_path: Seq<char>,
    ) -> (CrunchrModel, Seq<EffectModel>) {
        if self.in_flight.contains(id) || self.queued(id) {
            (self, Seq::empty())
        } else {
            let flying = CrunchrModel { in_flight: self.in_flight.insert(id), ..self };
            if self.db_open {
                (
                    flying,
                    seq![
                        EffectModel::InsertVideo {
                            recording_id: id,
                            key: ids::id_text_of(id),
                            channel_name,
                            title,
                            video_path,
                        },
                    ],
                )
            } else {
                flying.enqueued(id, channel_name, title, video_path)
            }
        }
    }

    /// The database has taken the video, or has not.
    pub open spec fn video_inserted(
        self,
        id: u128,
        channel_name: Seq<char>,
        title: Seq<char>,
        video_path: Seq<char>,
        outcome: Result<(), Seq<char>>,
    ) -> (CrunchrModel, Seq<EffectModel>) {
        match outcome {
            Ok(_) => self.enqueued(id, channel_name, title, video_path),
            Err(e) => (
                CrunchrModel { last_error: Some("DB insert error: "@ + e), ..self.landed(id) },
                seq![EffectModel::SetStatus("CrunchR DB error: "@ + e)],
            ),
        }
    }

    /// The next stage of the recording's job is started.
    pub open spec fn start_next_stage(self, id: u128) -> (CrunchrModel, Seq<EffectModel>) {
        if !self.queued(id) {
            (self, Seq::empty())
        } else {
            match self.job(id).state {
                PipelineState::Pending => (
                    self.staged(id, PipelineState::ExtractingAudio),
                    self.status(id, "extracting_audio"@).push(
                        EffectModel::ExtractAudio {
                            recording_id: id,
                            video_path: self.job(id).video_path,
                            output_dir: PathModel { base: self.data_dir, parts: seq!["audio"@] },
                        },
                    ),
                ),
                PipelineState::ExtractingAudio => if !self.backend_available {
                    (
                        self.failed(id, "No transcription backend available"@).landed(id),
                        seq![EffectModel::SetStatus("CrunchR: no transcription backend"@)],
                    )
                } else {
                    (
                        self.staged(id, PipelineState::Transcribing),
                        self.status(id, "transcribing"@).push(
                            EffectModel::Transcribe {
                                recording_id: id,
                                audio_path: match self.job(id).audio_path {
                                    Some(p) => p,
                                    None => Seq::empty(),
                                },
                            },
                        ),
                    )
                },
                PipelineState::Transcribing => if self.db_open {
                    (
                        self.staged(id, PipelineState::Chunking),
                        self.status(id, "chunking"@).push(
                            EffectModel::LoadSegments {
                                recording_id: id,
                                key: ids::id_text_of(id),
                            },
                        ),
                    )
                } else {
                    (self.failed(id, "No segments found for chunking"@).landed(id), Seq::empty())
                },
                _ => (self, Seq::empty()),
            }
        }
    }

    /// The stored segments of a recording have been read, with the id of its video, or there were
    /// none.
    pub open spec fn segments_loaded(
        self,
        id: u128,
        found: Option<(i64, Seq<(usize, Double, Double, Seq<char>)>)>,
    ) -> (CrunchrModel, Seq<EffectModel>) {
        match found {
            Some((video_id, rows)) => (
                self,
                seq![
                    EffectModel::ChunkSegments {
                        recording_id: id,
                        video_id,
                        segments: stored_segments(rows),
                    },
                ],
            ),
            None => (
                self.failed(id, "No segments found for chunking"@).landed(id),
                Seq::empty(),
            ),
        }
    }

    /// The audio file of the recording's job, to be removed once it is transcribed.
    pub open spec fn spent_audio(self, id: u128) -> Seq<EffectModel> {
        if self.queued(id) {
            match self.job(id).audio_path {
                Some(p) => seq![EffectModel::RemoveFile(p)],
                None => Seq::empty(),
            }
        } else {
            Seq::empty()
        }
    }

    /// Chunks have been made: they are stored, and analysis starts if it is on.
    pub open spec fn chunking_complete(
        self,
        id: u128,
        video_id: i64,
        chunks: Seq<ChunkModel>,
        word_frequencies: Seq<(Seq<char>, usize)>,
    ) -> (CrunchrModel, Seq<EffectModel>) {
        let stored = self.if_db(EffectModel::StoreChunks { video_id, chunks, word_frequencies });
        if self.analysis_config matches Some(c) && c.enabled {
            (
                self.staged(id, PipelineState::Analyzing),
                (stored + self.status(id, "analyzing"@) + self.top_words()).push(
                    EffectModel::Analyze {
                        recording_id: id,
                        key: ids::id_text_of(id),
                        channel_name: if self.queued(id) {
                            self.job(id).channel_name
                        } else {
                            Seq::empty()
                        },
                        title: if self.queued(id) {
                            self.job(id).title
                        } else {
                            Seq::empty()
                        },
                        config: self.analysis_config->0,
                    },
                ),
            )
        } else {
            (
                self.staged(id, PipelineState::Complete).landed(id),
                stored + self.status(id, "complete"@) + self.top_words(),
            )
        }
    }

    /// The audio has been extracted: it is noted, and the next stage starts.
    pub open spec fn audio_extracted(self, id: u128, audio_path: Seq<char>) -> (
        CrunchrModel,
        Seq<EffectModel>,
    ) {
        let (next, effects) = self.with_audio(id, audio_path).start_next_stage(id);
        (
            next,
            self.if_db(EffectModel::UpdateAudioPath { key: ids::id_text_of(id), audio_path })
                + effects,
        )
    }

    /// The transcript has come: it is stored, the audio file removed, and the next stage starts.
    pub open spec fn transcription_complete(
        self,
        id: u128,
        segments: Seq<SegmentModel>,
        full_text: Seq<char>,
    ) -> (CrunchrModel, Seq<EffectModel>) {
        let (next, effects) = self.start_next_stage(id);
        (
            next,
            self.if_db(
                EffectModel::StoreTranscript {
                    key: ids::id_text_of(id),
                    transcript: full_text,
                    segments,
                },
            ) + self.spent_audio(id) + effects,
        )
    }

    /// The analysis has come: it is stored, and the recording is done.
    pub open spec fn analysis_complete(
        self,
        id: u128,
        summary: Seq<char>,
        topics: Seq<char>,
        sentiment: Seq<char>,
    ) -> (CrunchrModel, Seq<EffectModel>) {
        (
            self.staged(id, PipelineState::Complete).landed(id),
            self.if_db(
                EffectModel::StoreAnalysis {
                    key: ids::id_text_of(id),
                    summary,
                    topics,
                    sentiment,
                },
            ) + self.status(id, "complete"@) + self.top_words(),
        )
    }

    /// A stage has failed: the job fails, and the user is told.
    pub open spec fn stage_error(self, id: u128, error: Seq<char>) -> (
        CrunchrModel,
        Seq<EffectModel>,
    ) {
        (
            CrunchrModel { last_error: Some(error), ..self.failed(id, error).landed(id) },
            self.if_db(
                EffectModel::UpdateStatus {
                    key: ids::id_text_of(id),
                    status: "failed"@,
                    error: Some(error),
                },
            ).push(EffectModel::SetStatus("CrunchR error: "@ + error)),
        )
    }

    /// What a report of a stage leads to.
    pub open spec fn pipeline_event(self, event: EventModel) -> (CrunchrModel, Seq<EffectModel>) {
        match event {
            EventModel::AudioExtracted { recording_id, audio_path } => self.audio_extracted(
                recording_id,
                audio_path,
            ),
            EventModel::TranscriptionComplete { recording_id, segments, full_text } => {
                self.transcription_complete(recording_id, segments, full_text)
            },
            EventModel::ChunkingComplete { recording_id, video_id, chunks, word_frequencies } => {
                self.chunking_complete(recording_id, video_id, chunks, word_frequencies)
            },
            EventModel::AnalysisComplete { recording_id, summary, topics, sentiment } => {
                self.analysis_complete(recording_id, summary, topics, sentiment)
            },
            EventModel::StageError { recording_id, error } => self.stage_error(
                recording_id,
                error,
            ),
        }
    }

    /// A recording has ended. It is taken in if the plugin is enabled, it ended normally, and it
    /// belongs to a channel or playlist that is handled in tandem.
    pub open spec fn recording_finished(
        self,
        id: u128,
        finished: bool,
        app: AppModel,
    ) -> (CrunchrModel, Seq<EffectModel>) {
        match host::recording_with(app.recordings, id) {
            Some(r) => if finished && self.enabled && host::in_tandem(
                r,
                self.tandem_channels,
                self.tandem_playlists,
            ) {
                self.queue_recording(id, r.channel_name, host::title_of(r), r.output_path)
            } else {
                (self, Seq::empty())
            },
            None => (self, Seq::empty()),
        }
    }

    // -----------------------------------------------------------------------
    // Search
    // -----------------------------------------------------------------------

    /// A search is asked for.
    pub open spec fn execute_search(self) -> (CrunchrModel, Seq<EffectModel>) {
        if self.search_query.len() == 0 {
            (CrunchrModel { search_results: Seq::empty(), ..self }, Seq::empty())
        } else if !self.db_open {
            (CrunchrModel { last_error: Some("DB not available"@), ..self }, Seq::empty())
        } else {
            (
                self,
                seq![EffectModel::Search { query: db::phrase_of(self.search_query), limit: 50 }],
            )
        }
    }

    /// What is shown of the hit in focus is read anew.
    pub open spec fn refresh_selected(self) -> (CrunchrModel, Seq<EffectModel>) {
        let blank = CrunchrModel { selected_analysis: None, selected_speaker: None, ..self };
        if self.selected_result < self.search_results.len() && self.db_open {
            (
                CrunchrModel { prev_selected: self.selected_result, ..blank },
                seq![
                    EffectModel::LoadDetails {
                        chunk_id: self.search_results[self.selected_result as int].chunk_id,
                    },
                ],
            )
        } else {
            (blank, Seq::empty())
        }
    }

    /// The hits of a search have come, or a reason why there are none.
    pub open spec fn search_finished(self, outcome: Result<Seq<HitModel>, Seq<char>>) -> (
        CrunchrModel,
        Seq<EffectModel>,
    ) {
        match outcome {
            Ok(hits) => CrunchrModel {
                search_results: hits,
                last_error: None,
                selected_result: 0,
                ..self
            },
            Err(e) => CrunchrModel {
                search_results: Seq::empty(),
                last_error: Some("Search error: "@ + e),
                selected_result: 0,
                ..self
            },
        }.refresh_selected()
    }

    // -----------------------------------------------------------------------
    // Settings
    // -----------------------------------------------------------------------

    /// The settings are opened, with a draft of the current ones.
    pub open spec fn open_config(self, app: AppModel) -> CrunchrModel {
        CrunchrModel {
            cached_channels: host::checklist_of(app.channels),
            config_draft: Some(
                CrunchrConfigModel {
                    enabled: self.enabled,
                    configured: self.configured,
                    backend: match self.backend {
                        Some(b) => b.name(),
                        None => "whisper-cli"@,
                    },
                    api_key_env: None,
                    endpoint: None,
                    whisper_model: None,
                    whisper_timeout_secs: 7200,
                    analysis: match self.analysis_config {
                        Some(c) => c,
                        None => app.analysis_defaults,
                    },
                    tandem_channels: self.tandem_channels,
                    tandem_playlists: self.tandem_playlists,
                },
            ),
            config_modal: ConfigModalState::Active {
                selected_field: 0,
                editing: false,
                static_field_count: 6,
            },
            ..self
        }
    }

    /// The settings in another place.
    pub open spec fn at_field(self, field: nat, editing: bool) -> CrunchrModel {
        CrunchrModel {
            config_modal: ConfigModalState::Active {
                selected_field: field as usize,
                editing,
                static_field_count: 6,
            },
            ..self
        }
    }

    /// With another draft, if there is one.
    pub open spec fn redrafted(self, draft: CrunchrConfigModel) -> CrunchrModel {
        if self.config_draft is Some {
            CrunchrModel { config_draft: Some(draft), ..self }
        } else {
            self
        }
    }

    /// The place of the Save button.
    pub open spec fn save_field(self) -> nat {
        static_fields() + self.cached_channels.len()
    }

    /// A key while a text field is edited.
    pub open spec fn edit_key(self, field: nat, key: Key) -> CrunchrModel {
        let d = self.config_draft->0;
        match key {
            Key::Esc | Key::Enter => self.at_field(field, false),
            Key::Backspace => if field == 2 {
                self.redrafted(
                    CrunchrConfigModel { api_key_env: text::popped_option(d.api_key_env), ..d },
                )
            } else if field == 3 {
                self.redrafted(
                    CrunchrConfigModel { endpoint: text::popped_option(d.endpoint), ..d },
                )
            } else if field == 4 {
                self.redrafted(
                    CrunchrConfigModel { whisper_model: text::popped_option(d.whisper_model), ..d },
                )
            } else {
                self
            },
            Key::Char(c) => if field == 2 {
                self.redrafted(
                    CrunchrConfigModel { api_key_env: text::pushed_option(d.api_key_env, c), ..d },
                )
            } else if field == 3 {
                self.redrafted(
                    CrunchrConfigModel { endpoint: text::pushed_option(d.endpoint, c), ..d },
                )
            } else if field == 4 {
                self.redrafted(
                    CrunchrConfigModel {
                        whisper_model: text::pushed_option(d.whisper_model, c),
                        ..d
                    },
                )
            } else {
                self
            },
            _ => self,
        }
    }

    /// The backend behind `name` in the cycle.
    pub open spec fn next_backend(name: Seq<char>) -> Seq<char> {
        if name == "whisper-cli"@ {
            "voxtral-api"@
        } else if name == "voxtral-api"@ {
            "voxtral-local"@
        } else {
            "whisper-cli"@
        }
    }

    /// A channel of the draft flipped; adding one enables the plugin.
    pub open spec fn flip_channel(self, d: CrunchrConfigModel, i: int) -> CrunchrConfigModel {
        let key = self.cached_channels[i].0;
        CrunchrConfigModel {
            tandem_channels: config::flipped(d.tandem_channels, key),
            enabled: d.enabled || !d.tandem_channels.contains(key),
            ..d
        }
    }

    /// The field in focus is pressed.
    pub open spec fn press(self, field: nat) -> (CrunchrModel, Seq<EffectModel>) {
        let d = self.config_draft->0;
        if field == self.save_field() {
            if self.config_draft is Some {
                let saved = CrunchrConfigModel { configured: true, ..d };
                (
                    CrunchrModel {
                        config_draft: None,
                        enabled: d.enabled,
                        configured: true,
                        tandem_channels: d.tandem_channels,
                        tandem_playlists: d.tandem_playlists,
                        analysis_config: if d.analysis.enabled {
                            Some(d.analysis)
                        } else {
                            None
                        },
                        config_modal: ConfigModalState::Hidden,
                        ..self
                    },
                    seq![EffectModel::UpdateConfig(saved)],
                )
            } else {
                (CrunchrModel { config_modal: ConfigModalState::Hidden, ..self }, Seq::empty())
            }
        } else {
            (
                if field == 0 {
                    self.redrafted(CrunchrConfigModel { enabled: !d.enabled, ..d })
                } else if field == 1 {
                    self.redrafted(
                        CrunchrConfigModel { backend: Self::next_backend(d.backend), ..d },
                    )
                } else if field == 5 {
                    self.redrafted(
                        CrunchrConfigModel {
                            analysis: AnalysisConfigModel {
                                enabled: !d.analysis.enabled,
                                ..d.analysis
                            },
                            ..d
                        },
                    )
                } else if field >= static_fields() {
                    self.redrafted(self.flip_channel(d, field - static_fields()))
                } else {
                    self.at_field(field, true)
                },
                Seq::empty(),
            )
        }
    }

    /// A key while the settings are open.
    pub open spec fn modal_key(self, key: Key) -> (CrunchrModel, Seq<EffectModel>) {
        match self.config_modal {
            ConfigModalState::Hidden => (self, Seq::empty()),
            ConfigModalState::Active { selected_field, editing, static_field_count } => if editing {
                (self.edit_key(selected_field as nat, key), Seq::empty())
            } else {
                match key {
                    Key::Down | Key::Char('j') => (
                        self.at_field(
                            if selected_field < self.save_field() {
                                (selected_field + 1) as nat
                            } else {
                                self.save_field()
                            },
                            false,
                        ),
                        Seq::empty(),
                    ),
                    Key::Up | Key::Char('k') => (
                        self.at_field(
                            if selected_field > 0 {
                                (selected_field - 1) as nat
                            } else {
                                0
                            },
                            false,
                        ),
                        Seq::empty(),
                    ),
                    Key::Enter | Key::Char(' ') => self.press(selected_field as nat),
                    Key::Esc => (
                        CrunchrModel {
                            config_modal: ConfigModalState::Hidden,
                            config_draft: None,
                            ..self
                        },
                        Seq::empty(),
                    ),
                    _ => (self, Seq::empty()),
                }
            },
        }
    }

    // -----------------------------------------------------------------------
    // Keys
    // -----------------------------------------------------------------------

    /// A key in the search view.
    pub open spec fn search_key(self, key: Key, app: AppModel) -> (CrunchrModel, Seq<EffectModel>) {
        if self.input_active {
            match key {
                Key::Esc => (CrunchrModel { input_active: false, ..self }, Seq::empty()),
                Key::Enter => CrunchrModel { input_active: false, ..self }.execute_search(),
                Key::Backspace => (
                    CrunchrModel { search_query: text::popped(self.search_query), ..self },
                    Seq::empty(),
                ),
                Key::Char(c) => (
                    CrunchrModel { search_query: self.search_query.push(c), ..self },
                    Seq::empty(),
                ),
                _ => (self, Seq::empty()),
            }
        } else {
            match key {
                Key::Char('/') => (CrunchrModel { input_active: true, ..self }, Seq::empty()),
                Key::Char('c') => (self.open_config(app), Seq::empty()),
                Key::Tab => (CrunchrModel { view: CrunchrView::Queue, ..self }, Seq::empty()),
                Key::Down | Key::Char('j') => if self.search_results.len() > 0 {
                    CrunchrModel {
                        selected_result: picker::row_below(
                            self.selected_result,
                            self.search_results.len(),
                        ),
                        ..self
                    }.refresh_selected()
                } else {
                    (self, Seq::empty())
                },
                Key::Up | Key::Char('k') => if self.search_results.len() > 0 {
                    CrunchrModel {
                        selected_result: picker::row_above(
                            self.selected_result,
                            self.search_results.len(),
                        ),
                        ..self
                    }.refresh_selected()
                } else {
                    (self, Seq::empty())
                },
                Key::Enter => if self.selected_result < self.search_results.len() {
                    match self.search_results[self.selected_result as int].video_path {
                        Some(p) => (self, seq![EffectModel::PlayFile(p)]),
                        None => (self, Seq::empty()),
                    }
                } else {
                    (self, Seq::empty())
                },
                Key::Esc => (self, seq![EffectModel::NavigateBack]),
                _ => (self, Seq::empty()),
            }
        }
    }

    /// A key in the queue view.
    pub open spec fn queue_key(self, key: Key) -> CrunchrModel {
        match key {
            Key::Tab => CrunchrModel { view: CrunchrView::RecordingPicker, ..self },
            Key::Esc => CrunchrModel { view: CrunchrView::Search, ..self },
            _ => self,
        }
    }

    /// The recordings `ids` taken in one after the other, as far as the host knows them.
    pub open spec fn take_in(self, ids: Seq<u128>, all: Seq<RecordingModel>) -> (
        CrunchrModel,
        Seq<EffectModel>,
    )
        decreases ids.len(),
    {
        if ids.len() == 0 {
            (self, Seq::empty())
        } else {
            let (before, effects) = self.take_in(ids.drop_last(), all);
            match host::recording_with(all, ids.last()) {
                Some(r) => {
                    let (after, more) = before.queue_recording(
                        ids.last(),
                        r.channel_name,
                        host::title_of(r),
                        r.output_path,
                    );
                    (after, effects + more)
                },
                None => (before, effects),
            }
        }
    }

    /// The recordings `ids` taken in; the queue comes into view if that leads to anything.
    pub open spec fn process(self, ids: Seq<u128>, all: Seq<RecordingModel>) -> (
        CrunchrModel,
        Seq<EffectModel>,
    ) {
        let (after, effects) = self.take_in(ids, all);
        if effects.len() > 0 {
            (CrunchrModel { view: CrunchrView::Queue, ..after }, effects)
        } else {
            (after, effects)
        }
    }

    /// The picker listed anew.
    pub open spec fn relisted(self, app: AppModel) -> CrunchrModel {
        CrunchrModel { picker: self.picker.refreshed(app.recordings, self.in_flight), ..self }
    }

    /// A key in the picker view. `picked` is the order in which the picked recordings are handled.
    pub open spec fn picker_key(self, key: Key, app: AppModel, picked: Seq<u128>) -> (
        CrunchrModel,
        Seq<EffectModel>,
    ) {
        let s = self.relisted(app);
        match key {
            Key::Tab => (CrunchrModel { view: CrunchrView::Search, ..s }, Seq::empty()),
            Key::Enter => CrunchrModel { picker: s.picker.cleared(), ..s }.process(
                picked,
                app.recordings,
            ),
            Key::Esc => (
                CrunchrModel { picker: s.picker.cleared(), view: CrunchrView::Search, ..s },
                Seq::empty(),
            ),
            _ => (
                CrunchrModel { picker: s.picker.moved(key, app.recordings, s.in_flight), ..s },
                Seq::empty(),
            ),
        }
    }

    /// A key. `picked` is the order in which the picker's recordings are handled, should the key
    /// lead there.
    pub open spec fn on_key(self, key: Key, app: AppModel, picked: Seq<u128>) -> (
        CrunchrModel,
        Seq<EffectModel>,
    ) {
        let s = if !self.configured && self.config_modal is Hidden {
            self.open_config(app)
        } else {
            self
        };
        if !(s.config_modal is Hidden) {
            s.modal_key(key)
        } else {
            match s.view {
                CrunchrView::Search => s.search_key(key, app),
                CrunchrView::Queue => (s.queue_key(key), Seq::empty()),
                CrunchrView::RecordingPicker => s.picker_key(key, app, picked),
            }
        }
    }

    /// Whether a key hands the picked recordings to the pipeline.
    pub open spec fn picks(self, key: Key) -> bool {
        &&& self.configured
        &&& self.config_modal is Hidden
        &&& self.view is RecordingPicker
        &&& key is Enter
    }

    /// What a key may lead to: one state and one list of effects, but for the order in which
    /// picked recordings are handled.
    pub open spec fn key_leads_to(
        self,
        key: Key,
        app: AppModel,
        after: CrunchrModel,
        effects: Seq<EffectModel>,
    ) -> bool {
        if self.picks(key) {
            exists|picked: Seq<u128>| #[trigger]
                self.relisted(app).picker.may_pick(picked) && (after, effects) == self.on_key(
                    key,
                    app,
                    picked,
                )
        } else {
            (after, effects) == self.on_key(key, app, Seq::empty())
        }
    }

    // -----------------------------------------------------------------------
    // Start and end
    // -----------------------------------------------------------------------

    /// Whether a backend can be used: the Whisper command if it was found, the Voxtral API always.
    pub open spec fn usable(backend: BackendModel, whisper_found: bool) -> bool {
        if backend.name() == "whisper-cli"@ {
            whisper_found
        } else {
            backend.name() == "voxtral"@
        }
    }

    /// The plugin started with a configuration, its database open.
    pub open spec fn initialized(
        self,
        c: CrunchrConfigModel,
        backend: BackendModel,
        whisper_found: bool,
    ) -> CrunchrModel {
        CrunchrModel {
            db_open: true,
            backend: Some(backend),
            backend_available: Self::usable(backend, whisper_found),
            analysis_config: if c.analysis.enabled {
                Some(c.analysis)
            } else {
                self.analysis_config
            },
            enabled: c.enabled,
            configured: c.configured,
            tandem_channels: c.tandem_channels,
            tandem_playlists: c.tandem_playlists,
            ..self
        }
    }

    /// What is known of a recording's transcript, as long as the database is open.
    pub open spec fn info(self, rows: RowsModel) -> Option<RecordingInfoModel> {
        if self.db_open {
            info_from(rows)
        } else {
            None
        }
    }

    /// The details of the hit in focus have been read.
    pub open spec fn with_details(
        self,
        analysis: Option<AnalysisModel>,
        speaker: Option<Seq<char>>,
    ) -> CrunchrModel {
        CrunchrModel { selected_analysis: analysis, selected_speaker: speaker, ..self }
    }

    /// The most frequent words have been read.
    pub open spec fn with_words(self, words: Seq<(Seq<char>, i64)>) -> CrunchrModel {
        CrunchrModel { word_frequencies: words, ..self }
    }

    /// The plugin shut down.
    pub open spec fn shut_down(self) -> CrunchrModel {
        CrunchrModel { db_open: false, backend: None, ..self }
    }

    /// The status line: how many jobs are not over, if any.
    pub open spec fn status_line(self) -> Option<Seq<char>> {
        if pending_jobs(self.queue) > 0 {
            Some("CR:"@ + number::decimal_of(pending_jobs(self.queue)))
        } else {
            None
        }
    }

    // -----------------------------------------------------------------------
    // Validity
    // -----------------------------------------------------------------------

    /// Whether there is a backend where one is said to be available. Shutting down ends this.
    pub open spec fn ready(self) -> bool {
        self.backend_available ==> self.backend is Some
    }

    /// Whether the next stage of the recording's job can be started: a transcription needs a
    /// backend.
    pub open spec fn can_go_on(self, id: u128) -> bool {
        self.queued(id) && self.job(id).state is ExtractingAudio ==> self.ready()
    }

    /// Whether what a report leads to can be started.
    pub open spec fn takes(self, event: EventModel) -> bool {
        match event {
            EventModel::AudioExtracted { recording_id, .. } => self.can_go_on(recording_id),
            EventModel::TranscriptionComplete { recording_id, .. } => self.can_go_on(recording_id),
            _ => true,
        }
    }

    /// What holds between any two calls.
    pub open spec fn wf(self) -> bool {
        &&& self.search_results.len() > 0 ==> self.selected_result < self.search_results.len()
        &&& self.config_modal matches ConfigModalState::Active {
            selected_field,
            editing,
            static_field_count,
        } ==> {
            &&& static_field_count == 6
            &&& selected_field <= self.save_field()
            &&& self.save_field() < usize::MAX
        }
    }
}

/// A count as the database gives it, 0 where it gives none.
pub open spec fn count_of(n: Option<i64>) -> usize {
    match n {
        Some(k) => k as usize,
        None => 0,
    }
}

/// What is known of a recording's transcript, if the database knows the recording.
pub open spec fn info_from(rows: RowsModel) -> Option<RecordingInfoModel> {
    match (rows.status, rows.video_id) {
        (Some(status), Some(_)) => Some(
            RecordingInfoModel {
                status,
                segment_count: count_of(rows.segments),
                word_count: count_of(rows.words),
                has_analysis: rows.analysis is Some,
                summary: match rows.analysis {
                    Some(a) => Some(a.0),
                    None => None,
                },
                topics: match rows.analysis {
                    Some(a) => analysis::topics_from(a.1),
                    None => Seq::empty(),
                },
                sentiment: match rows.analysis {
                    Some(a) => Some(a.2),
                    None => None,
                },
            },
        ),
        _ => None,
    }
}

} // verus!
