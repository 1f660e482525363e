//! Transcription and analysis of recordings: the plugin's state and how it answers keys, events
//! and results.
pub mod analysis;
pub mod cost;
pub mod db;
pub mod laws;
pub mod model;
pub mod pipeline;
pub mod render;
pub mod transcribe;
pub mod types;

use vstd::prelude::*;

use std::collections::HashSet;

use crate::config::{
    flip, AnalysisConfigModel, ConfigModalState, CrunchrAnalysisConfig, CrunchrConfig,
};
use crate::host;
use crate::host::{AppSnapshot, JoinedPath, Key, PathModel};
use crate::ids;
use crate::number;
use crate::number::Double;
use crate::picker::PickerState;
use crate::text;

use model::CrunchrModel;
use transcribe::{Backend, BackendModel, TranscriptionBackend};
use types::{
    AnalysisData, ChunkData, CrunchrRecordingInfo, CrunchrView, Effect, EffectModel, HitModel,
    JobModel, PipelineEvent, PipelineState, ProcessingJob, RecordingRows, SearchMode, SearchResult,
    Segment,
};

verus! {

/// The pane of the plugin.
pub const PANE_ID: &'static str = "crunchr";

/// Number of static config fields in the config modal (before the channel checklist).
/// Fields: enabled, backend, api_key, endpoint, whisper_model, analysis_enabled.
/// Channel checkboxes start behind them.
const CRUNCHR_STATIC_FIELDS: usize = 6;

/// What the plugin keeps to itself.
#[derive(Debug)]
pub struct CrunchrCore {
    /// Whether the database is open.
    db_open: bool,
    data_dir: String,
    /// Concurrency guard: recording ids currently being processed.
    in_flight: HashSet<u128>,
    /// Transcription backend.
    backend: Option<Backend>,
    /// Settings of the analysis, if it is on.
    analysis_config: Option<CrunchrAnalysisConfig>,
    /// The selected result whose details were last asked for.
    prev_selected: usize,
}

#[verifier::ext_equal]
pub struct CoreModel {
    pub db_open: bool,
    pub data_dir: Seq<char>,
    pub in_flight: Set<u128>,
    pub backend: Option<BackendModel>,
    pub analysis_config: Option<AnalysisConfigModel>,
    pub prev_selected: nat,
}

impl View for CrunchrCore {
    type V = CoreModel;

    closed spec fn view(&self) -> CoreModel {
        CoreModel {
            db_open: self.db_open,
            data_dir: self.data_dir@,
            in_flight: self.in_flight@,
            backend: self.backend.deep_view(),
            analysis_config: self.analysis_config.deep_view(),
            prev_selected: self.prev_selected as nat,
        }
    }
}

/// The transcription plugin.
#[derive(Debug)]
pub struct CrunchrPlugin {
    pub core: CrunchrCore,
    pub queue: Vec<ProcessingJob>,
    pub search_results: Vec<SearchResult>,
    pub search_query: String,
    pub search_mode: SearchMode,
    pub selected_result: usize,
    pub input_active: bool,
    pub word_frequencies: Vec<(String, i64)>,
    pub backend_available: bool,
    /// Last error message for display.
    pub last_error: Option<String>,
    /// Analysis data for the currently selected search result.
    pub selected_analysis: Option<AnalysisData>,
    /// Speaker label for the currently selected search result.
    pub selected_speaker: Option<String>,
    /// Whether the plugin is enabled for tandem auto-processing.
    pub enabled: bool,
    /// Whether the first-run config has been completed.
    pub configured: bool,
    /// Tandem channels (auto-trigger when a recording finishes).
    pub tandem_channels: Vec<String>,
    /// Tandem playlists.
    pub tandem_playlists: Vec<String>,
    /// Config modal state.
    pub config_modal: ConfigModalState,
    /// Draft config being edited in the modal.
    pub config_draft: Option<CrunchrConfig>,
    /// Current view mode.
    pub view: CrunchrView,
    /// Recording picker state.
    pub picker: PickerState,
    /// Channel keys and names for the config modal's tandem checkboxes.
    pub cached_channels: Vec<(String, String)>,
}

impl View for CrunchrPlugin {
    type V = CrunchrModel;

    open spec fn view(&self) -> CrunchrModel {
        CrunchrModel {
            db_open: self.core@.db_open,
            data_dir: self.core@.data_dir,
            in_flight: self.core@.in_flight,
            backend: self.core@.backend,
            analysis_config: self.core@.analysis_config,
            queue: self.queue.deep_view(),
            search_results: self.search_results.deep_view(),
            search_query: self.search_query@,
            search_mode: self.search_mode,
            selected_result: self.selected_result as nat,
            input_active: self.input_active,
            word_frequencies: self.word_frequencies.deep_view(),
            backend_available: self.backend_available,
            last_error: self.last_error.deep_view(),
            selected_analysis: self.selected_analysis.deep_view(),
            selected_speaker: self.selected_speaker.deep_view(),
            prev_selected: self.core@.prev_selected,
            enabled: self.enabled,
            configured: self.configured,
            tandem_channels: self.tandem_channels.deep_view(),
            tandem_playlists: self.tandem_playlists.deep_view(),
            config_modal: self.config_modal,
            config_draft: self.config_draft.deep_view(),
            view: self.view,
            picker: self.picker.deep_view(),
            cached_channels: self.cached_channels.deep_view(),
        }
    }
}

/// One effect.
fn one(effect: Effect) -> (r: Vec<Effect>)
    ensures
        r.deep_view() == seq![effect.deep_view()],
{
    let mut out: Vec<Effect> = Vec::new();
    let ghost e = effect.deep_view();
    out.push(effect);
    assert(out.deep_view() == seq![e]);
    out
}

/// No effect.
fn nothing() -> (r: Vec<Effect>)
    ensures
        r.deep_view() == Seq::<EffectModel>::empty(),
{
    let out: Vec<Effect> = Vec::new();
    assert(out.deep_view() == Seq::<EffectModel>::empty());
    out
}

/// Puts an effect behind others.
fn put(out: &mut Vec<Effect>, effect: Effect)
    ensures
        final(out).deep_view() == old(out).deep_view().push(effect.deep_view()),
{
    let ghost before = out.deep_view();
    let ghost e = effect.deep_view();
    out.push(effect);
    assert(out.deep_view() == before.push(e));
}

/// Puts effects behind others.
fn put_all(out: &mut Vec<Effect>, more: Vec<Effect>)
    ensures
        final(out).deep_view() == old(out).deep_view() + more.deep_view(),
{
    let ghost before = out.deep_view();
    let ghost rest = more.deep_view();
    let mut tail = more;
    out.append(&mut tail);
    assert(out.deep_view() == before + rest);
}

impl Default for CrunchrPlugin {
    fn default() -> (r: Self)
        ensures
            r@ == model::fresh(),
    {
        Self::new()
    }
}

impl CrunchrPlugin {
    pub fn new() -> (r: Self)
        ensures
            r@ == model::fresh(),
            r@.wf(),
    {
        let r = CrunchrPlugin {
            core: CrunchrCore {
                db_open: false,
                data_dir: String::new(),
                in_flight: HashSet::new(),
                backend: None,
                analysis_config: None,
                prev_selected: usize::MAX,
            },
            queue: Vec::new(),
            search_results: Vec::new(),
            search_query: String::new(),
            search_mode: SearchMode::FullText,
            selected_result: 0,
            input_active: false,
            word_frequencies: Vec::new(),
            backend_available: false,
            last_error: None,
            selected_analysis: None,
            selected_speaker: None,
            enabled: false,
            configured: false,
            tandem_channels: Vec::new(),
            tandem_playlists: Vec::new(),
            config_modal: ConfigModalState::Hidden,
            config_draft: None,
            view: CrunchrView::Search,
            picker: PickerState::new(),
            cached_channels: Vec::new(),
        };
        assert(r@ == model::fresh());
        r
    }

    /// Where the job of a recording stands in the queue, or the length of the queue.
    fn find_job(&self, id: u128) -> (r: usize)
        ensures
            r == model::job_at(self.queue.deep_view(), id),
            r <= self.queue.len(),
    {
        let mut i: usize = 0;
        let ghost jobs = self.queue.deep_view();
        while i < self.queue.len()
            invariant
                i <= self.queue.len(),
                jobs == self.queue.deep_view(),
                forall|j: int| 0 <= j < i ==> (#[trigger] jobs[j]).recording_id != id,
            decreases self.queue.len() - i,
        {
            assert(jobs[i as int] == self.queue[i as int].deep_view());
            if self.queue[i].recording_id == id {
                proof {
                    model::lemma_job_at_is(jobs, id, i as int);
                }
                return i;
            }
            i = i + 1;
        }
        proof {
            model::lemma_job_at_is(jobs, id, i as int);
        }
        i
    }

    /// Puts the recording's job into another state.
    fn stage(&mut self, id: u128, state: PipelineState)
        ensures
            final(self)@ == old(self)@.staged(id, state),
    {
        let i = self.find_job(id);
        if i < self.queue.len() {
            let ghost before = self.queue.deep_view();
            self.queue[i].state = state;
            assert(self.queue.deep_view() == before.update(
                i as int,
                JobModel { state, ..before[i as int] },
            ));
        }
        assert(self@ == old(self)@.staged(id, state));
    }

    /// Marks the recording's job as failed.
    fn fail(&mut self, id: u128, error: &str)
        ensures
            final(self)@ == old(self)@.failed(id, error@),
    {
        let i = self.find_job(id);
        if i < self.queue.len() {
            let ghost before = self.queue.deep_view();
            self.queue[i].state = PipelineState::Failed;
            self.queue[i].error = Some(error.to_owned());
            assert(self.queue.deep_view() == before.update(
                i as int,
                JobModel {
                    state: PipelineState::Failed,
                    error: Some(error@),
                    ..before[i as int]
                },
            ));
        }
        assert(self@ == old(self)@.failed(id, error@));
    }

    /// Takes the recording out of those in flight.
    fn land(&mut self, id: u128)
        ensures
            final(self)@ == old(self)@.landed(id),
    {
        self.core.in_flight.remove(&id);
        assert(self@ == old(self)@.landed(id));
    }

    /// Writes the status of a recording to the database, if it is open.
    fn status_effects(&self, id: u128, status: &str) -> (r: Vec<Effect>)
        ensures
            r.deep_view() == self@.status(id, status@),
    {
        if self.core.db_open {
            one(
                Effect::UpdateStatus {
                    key: ids::id_text(id),
                    status: status.to_owned(),
                    error: None,
                },
            )
        } else {
            nothing()
        }
    }

    fn start_next_stage(&mut self, recording_id: u128) -> (r: Vec<Effect>)
        ensures
            (final(self)@, r.deep_view()) == old(self)@.start_next_stage(recording_id),
    {
        let i = self.find_job(recording_id);
        if i >= self.queue.len() {
            return nothing();
        }
        assert(self@.job(recording_id) == self.queue[i as int].deep_view());
        match self.queue[i].state {
            PipelineState::Pending => {
                let video_path = self.queue[i].video_path.clone();
                self.stage(recording_id, PipelineState::ExtractingAudio);
                let mut out = self.status_effects(recording_id, "extracting_audio");
                let output_dir = JoinedPath::of(self.core.data_dir.as_str()).with("audio");
                assert(output_dir.deep_view() == (PathModel {
                    base: self.core.data_dir@,
                    parts: seq!["audio"@],
                }));
                put(&mut out, Effect::ExtractAudio { recording_id, video_path, output_dir });
                out
            },
            PipelineState::ExtractingAudio => {
                if !self.backend_available {
                    self.fail(recording_id, "No transcription backend available");
                    self.land(recording_id);
                    return one(Effect::SetStatus("CrunchR: no transcription backend".to_owned()));
                }
                let audio_path = match &self.queue[i].audio_path {
                    Some(p) => p.clone(),
                    None => String::new(),
                };
                self.stage(recording_id, PipelineState::Transcribing);
                let mut out = self.status_effects(recording_id, "transcribing");
                put(&mut out, Effect::Transcribe { recording_id, audio_path });
                out
            },
            PipelineState::Transcribing => {
                if !self.core.db_open {
                    self.fail(recording_id, "No segments found for chunking");
                    self.land(recording_id);
                    return nothing();
                }
                self.stage(recording_id, PipelineState::Chunking);
                let mut out = self.status_effects(recording_id, "chunking");
                put(
                    &mut out,
                    Effect::LoadSegments { recording_id, key: ids::id_text(recording_id) },
                );
                out
            },
            _ => nothing(),
        }
    }

    /// The recording's job is entered and its first stage started.
    fn enqueue(&mut self, recording_id: u128, channel_name: String, title: String, video_path: String) -> (r:
        Vec<Effect>)
        ensures
            (final(self)@, r.deep_view()) == old(self)@.enqueued(
                recording_id,
                channel_name@,
                title@,
                video_path@,
            ),
    {
        let ghost before = self.queue.deep_view();
        let job = ProcessingJob {
            recording_id,
            channel_name,
            title,
            video_path,
            audio_path: None,
            state: PipelineState::Pending,
            error: None,
        };
        let ghost j = job.deep_view();
        self.queue.push(job);
        assert(self.queue.deep_view() == before.push(j));
        assert(self@ == (CrunchrModel { queue: before.push(j), ..old(self)@ }));
        self.start_next_stage(recording_id)
    }

    /// Takes a recording into the pipeline, unless it is there already. With a database, the
    /// video is stored first and [`CrunchrPlugin::video_inserted`] goes on.
    pub fn queue_recording(
        &mut self,
        recording_id: u128,
        channel_name: String,
        title: String,
        video_path: String,
    ) -> (r: Vec<Effect>)
        requires
            old(self)@.wf(),
        ensures
            final(self)@.wf(),
            (final(self)@, r.deep_view()) == old(self)@.queue_recording(
                recording_id,
                channel_name@,
                title@,
                video_path@,
            ),
    {
        if self.core.in_flight.contains(&recording_id) {
            return nothing();
        }
        if self.find_job(recording_id) < self.queue.len() {
            return nothing();
        }
        self.core.in_flight.insert(recording_id);
        assert(self@ == (CrunchrModel {
            in_flight: old(self)@.in_flight.insert(recording_id),
            ..old(self)@
        }));
        if self.core.db_open {
            one(
                Effect::InsertVideo {
                    recording_id,
                    key: ids::id_text(recording_id),
                    channel_name,
                    title,
                    video_path,
                },
            )
        } else {
            self.enqueue(recording_id, channel_name, title, video_path)
        }
    }

    /// Takes in whether the database has stored the video of a recording.
    pub fn video_inserted(
        &mut self,
        recording_id: u128,
        channel_name: String,
        title: String,
        video_path: String,
        outcome: Result<(), String>,
    ) -> (r: Vec<Effect>)
        requires
            old(self)@.wf(),
            outcome is Ok ==> old(self)@.can_go_on(recording_id),
        ensures
            final(self)@.wf(),
            (final(self)@, r.deep_view()) == old(self)@.video_inserted(
                recording_id,
                channel_name@,
                title@,
                video_path@,
                match outcome {
                    Ok(_) => Ok(()),
                    Err(e) => Err(e@),
                },
            ),
    {
        match outcome {
            Ok(_) => self.enqueue(recording_id, channel_name, title, video_path),
            Err(e) => {
                self.last_error = Some(text::cat("DB insert error: ", e.as_str()));
                self.core.in_flight.remove(&recording_id);
                one(Effect::SetStatus(text::cat("CrunchR DB error: ", e.as_str())))
            },
        }
    }

    /// Takes in the stored segments of a recording, with the id of its video, or that there are
    /// none.
    pub fn segments_loaded(
        &mut self,
        recording_id: u128,
        found: Option<(i64, Vec<(usize, Double, Double, String)>)>,
    ) -> (r: Vec<Effect>)
        requires
            old(self)@.wf(),
        ensures
            final(self)@.wf(),
            (final(self)@, r.deep_view()) == old(self)@.segments_loaded(
                recording_id,
                found.deep_view(),
            ),
    {
        match found {
            Some((video_id, rows)) => {
                let segments = segments_of(&rows);
                one(Effect::ChunkSegments { recording_id, video_id, segments })
            },
            None => {
                self.fail(recording_id, "No segments found for chunking");
                self.land(recording_id);
                nothing()
            },
        }
    }

    /// Reads the most frequent words anew, if the database is open.
    fn refresh_word_frequencies(&self) -> (r: Vec<Effect>)
        ensures
            r.deep_view() == self@.top_words(),
    {
        if self.core.db_open {
            one(Effect::LoadTopWords { limit: 20 })
        } else {
            nothing()
        }
    }

    /// Takes in the most frequent words.
    pub fn word_frequencies_loaded(&mut self, words: Vec<(String, i64)>)
        requires
            old(self)@.wf(),
        ensures
            final(self)@.wf(),
            final(self)@ == (CrunchrModel { word_frequencies: words.deep_view(), ..old(self)@ }),
            final(self)@ == old(self)@.with_words(words.deep_view()),
    {
        self.word_frequencies = words;
    }

    /// The audio file of the recording's job, to be removed.
    fn spent_audio(&self, id: u128) -> (r: Vec<Effect>)
        ensures
            r.deep_view() == self@.spent_audio(id),
    {
        let i = self.find_job(id);
        if i < self.queue.len() {
            assert(self@.job(id) == self.queue[i as int].deep_view());
            match &self.queue[i].audio_path {
                Some(p) => one(Effect::RemoveFile(p.clone())),
                None => nothing(),
            }
        } else {
            nothing()
        }
    }

    /// Stores the chunks and starts the analysis, if it is on.
    fn chunking_complete(
        &mut self,
        recording_id: u128,
        video_id: i64,
        chunks: Vec<ChunkData>,
        word_frequencies: Vec<(String, usize)>,
    ) -> (r: Vec<Effect>)
        ensures
            (final(self)@, r.deep_view()) == old(self)@.chunking_complete(
                recording_id,
                video_id,
                chunks.deep_view(),
                word_frequencies.deep_view(),
            ),
    {
        let mut out = if self.core.db_open {
            one(Effect::StoreChunks { video_id, chunks, word_frequencies })
        } else {
            nothing()
        };
        let analyze = match &self.core.analysis_config {
            Some(c) => c.enabled,
            None => false,
        };
        if analyze {
            let config = match &self.core.analysis_config {
                Some(c) => c.duplicate(),
                None => {
                    return out;
                },
            };
            let i = self.find_job(recording_id);
            let (channel_name, title) = if i < self.queue.len() {
                assert(self@.job(recording_id) == self.queue[i as int].deep_view());
                (self.queue[i].channel_name.clone(), self.queue[i].title.clone())
            } else {
                (String::new(), String::new())
            };
            let status = self.status_effects(recording_id, "analyzing");
            put_all(&mut out, status);
            let words = self.refresh_word_frequencies();
            put_all(&mut out, words);
            put(
                &mut out,
                Effect::Analyze {
                    recording_id,
                    key: ids::id_text(recording_id),
                    channel_name,
                    title,
                    config,
                },
            );
            self.stage(recording_id, PipelineState::Analyzing);
            return out;
        }
        let status = self.status_effects(recording_id, "complete");
        put_all(&mut out, status);
        let words = self.refresh_word_frequencies();
        put_all(&mut out, words);
        self.stage(recording_id, PipelineState::Complete);
        self.land(recording_id);
        out
    }

    /// Notes the audio file and starts the next stage.
    fn audio_extracted(&mut self, recording_id: u128, audio_path: String) -> (r: Vec<Effect>)
        ensures
            (final(self)@, r.deep_view()) == old(self)@.audio_extracted(recording_id, audio_path@),
    {
        let i = self.find_job(recording_id);
        if i < self.queue.len() {
            let ghost before = self.queue.deep_view();
            self.queue[i].audio_path = Some(audio_path.clone());
            assert(self.queue.deep_view() == before.update(
                i as int,
                JobModel { audio_path: Some(audio_path@), ..before[i as int] },
            ));
        }
        assert(self@ == old(self)@.with_audio(recording_id, audio_path@));
        let mut out = if self.core.db_open {
            one(Effect::UpdateAudioPath { key: ids::id_text(recording_id), audio_path })
        } else {
            nothing()
        };
        let more = self.start_next_stage(recording_id);
        put_all(&mut out, more);
        out
    }

    /// Stores the transcript, removes the audio file, and starts the next stage.
    fn transcription_complete(
        &mut self,
        recording_id: u128,
        segments: Vec<Segment>,
        full_text: String,
    ) -> (r: Vec<Effect>)
        ensures
            (final(self)@, r.deep_view()) == old(self)@.transcription_complete(
                recording_id,
                segments.deep_view(),
                full_text@,
            ),
    {
        let mut out = if self.core.db_open {
            one(
                Effect::StoreTranscript {
                    key: ids::id_text(recording_id),
                    transcript: full_text,
                    segments,
                },
            )
        } else {
            nothing()
        };
        let spent = self.spent_audio(recording_id);
        put_all(&mut out, spent);
        let more = self.start_next_stage(recording_id);
        put_all(&mut out, more);
        out
    }

    /// Stores the analysis; the recording is done.
    fn analysis_complete(
        &mut self,
        recording_id: u128,
        summary: String,
        topics: String,
        sentiment: String,
    ) -> (r: Vec<Effect>)
        ensures
            (final(self)@, r.deep_view()) == old(self)@.analysis_complete(
                recording_id,
                summary@,
                topics@,
                sentiment@,
            ),
    {
        let mut out = if self.core.db_open {
            one(
                Effect::StoreAnalysis {
                    key: ids::id_text(recording_id),
                    summary,
                    topics,
                    sentiment,
                },
            )
        } else {
            nothing()
        };
        let status = self.status_effects(recording_id, "complete");
        put_all(&mut out, status);
        let words = self.refresh_word_frequencies();
        put_all(&mut out, words);
        self.stage(recording_id, PipelineState::Complete);
        self.land(recording_id);
        out
    }

    /// Marks the job as failed and tells the user.
    fn stage_error(&mut self, recording_id: u128, error: String) -> (r: Vec<Effect>)
        ensures
            (final(self)@, r.deep_view()) == old(self)@.stage_error(recording_id, error@),
    {
        let mut out = if self.core.db_open {
            one(
                Effect::UpdateStatus {
                    key: ids::id_text(recording_id),
                    status: "failed".to_owned(),
                    error: Some(error.clone()),
                },
            )
        } else {
            nothing()
        };
        put(&mut out, Effect::SetStatus(text::cat("CrunchR error: ", error.as_str())));
        self.fail(recording_id, error.as_str());
        self.land(recording_id);
        self.last_error = Some(error);
        out
    }

    /// Takes in what a stage of the pipeline reports.
    pub fn handle_pipeline_event(&mut self, event: PipelineEvent) -> (r: Vec<Effect>)
        requires
            old(self)@.wf(),
            old(self)@.takes(event.deep_view()),
        ensures
            final(self)@.wf(),
            (final(self)@, r.deep_view()) == old(self)@.pipeline_event(event.deep_view()),
    {
        match event {
            PipelineEvent::AudioExtracted { recording_id, audio_path } => {
                self.audio_extracted(recording_id, audio_path)
            },
            PipelineEvent::TranscriptionComplete { recording_id, segments, full_text } => {
                self.transcription_complete(recording_id, segments, full_text)
            },
            PipelineEvent::ChunkingComplete { recording_id, video_id, chunks, word_frequencies } => {
                self.chunking_complete(recording_id, video_id, chunks, word_frequencies)
            },
            PipelineEvent::AnalysisComplete { recording_id, summary, topics, sentiment } => {
                self.analysis_complete(recording_id, summary, topics, sentiment)
            },
            PipelineEvent::StageError { recording_id, error } => {
                self.stage_error(recording_id, error)
            },
        }
    }

    /// Takes in that a recording has ended, normally or not.
    pub fn recording_finished(&mut self, job_id: u128, finished: bool, app: &AppSnapshot) -> (r: Vec<
        Effect,
    >)
        requires
            old(self)@.wf(),
        ensures
            final(self)@.wf(),
            (final(self)@, r.deep_view()) == old(self)@.recording_finished(
                job_id,
                finished,
                app.deep_view(),
            ),
    {
        if !finished || !self.enabled {
            return nothing();
        }
        match host::find_recording(&app.recordings, job_id) {
            Some(rec) => {
                if rec.is_in_tandem(&self.tandem_channels, &self.tandem_playlists) {
                    let title = rec.title();
                    return self.queue_recording(
                        job_id,
                        rec.channel_name.clone(),
                        title,
                        rec.output_path.clone(),
                    );
                }
                nothing()
            },
            None => nothing(),
        }
    }
}

impl CrunchrPlugin {
    /// Asks for a search with the current query.
    fn execute_search(&mut self) -> (r: Vec<Effect>)
        ensures
            (final(self)@, r.deep_view()) == old(self)@.execute_search(),
    {
        if self.search_query.as_str().is_empty() {
            self.search_results.clear();
            assert(self.search_results.deep_view() == Seq::<HitModel>::empty());
            return nothing();
        }
        if !self.core.db_open {
            self.last_error = Some("DB not available".to_owned());
            return nothing();
        }
        let query = db::sanitize_fts_query(self.search_query.as_str());
        one(Effect::Search { query, limit: 50 })
    }

    /// Takes in the hits of a search, or why there are none.
    pub fn search_finished(&mut self, outcome: Result<Vec<SearchResult>, String>) -> (r: Vec<Effect>)
        requires
            old(self)@.wf(),
        ensures
            final(self)@.wf(),
            (final(self)@, r.deep_view()) == old(self)@.search_finished(
                match outcome {
                    Ok(hits) => Ok(hits.deep_view()),
                    Err(e) => Err(e@),
                },
            ),
    {
        match outcome {
            Ok(hits) => {
                self.search_results = hits;
                self.last_error = None;
            },
            Err(e) => {
                self.search_results.clear();
                assert(self.search_results.deep_view() == Seq::<HitModel>::empty());
                self.last_error = Some(text::cat("Search error: ", e.as_str()));
            },
        }
        self.selected_result = 0;
        self.refresh_selected_analysis()
    }

    /// Asks for what is shown of the selected result.
    fn refresh_selected_analysis(&mut self) -> (r: Vec<Effect>)
        ensures
            (final(self)@, r.deep_view()) == old(self)@.refresh_selected(),
    {
        self.selected_analysis = None;
        self.selected_speaker = None;
        if self.selected_result < self.search_results.len() && self.core.db_open {
            assert(self@.search_results[self.selected_result as int]
                == self.search_results[self.selected_result as int].deep_view());
            let chunk_id: i64 = self.search_results[self.selected_result].chunk_id;
            self.core.prev_selected = self.selected_result;
            one(Effect::LoadDetails { chunk_id })
        } else {
            nothing()
        }
    }

    /// Takes in what is known of the selected result.
    pub fn details_loaded(&mut self, analysis: Option<AnalysisData>, speaker: Option<String>)
        requires
            old(self)@.wf(),
        ensures
            final(self)@.wf(),
            final(self)@ == (CrunchrModel {
                selected_analysis: analysis.deep_view(),
                selected_speaker: speaker.deep_view(),
                ..old(self)@
            }),
            final(self)@ == old(self)@.with_details(analysis.deep_view(), speaker.deep_view()),
    {
        self.selected_analysis = analysis;
        self.selected_speaker = speaker;
    }

    /// Opens the config modal, with a draft of the current config.
    pub fn open_config_modal(&mut self, app: &AppSnapshot)
        requires
            old(self)@.wf(),
            app.channels.len() < usize::MAX - 6,
        ensures
            final(self)@.wf(),
            final(self)@ == old(self)@.open_config(app.deep_view()),
    {
        self.cached_channels = host::checklist(&app.channels);
        let backend = match &self.core.backend {
            Some(b) => b.backend_name().to_owned(),
            None => "whisper-cli".to_owned(),
        };
        let analysis = match &self.core.analysis_config {
            Some(c) => c.duplicate(),
            None => app.analysis_defaults.duplicate(),
        };
        let draft = CrunchrConfig {
            enabled: self.enabled,
            configured: self.configured,
            backend,
            api_key_env: None,
            endpoint: None,
            whisper_model: None,
            whisper_timeout_secs: 7200,
            analysis,
            tandem_channels: text::copies(&self.tandem_channels),
            tandem_playlists: text::copies(&self.tandem_playlists),
        };
        self.config_draft = Some(draft);
        self.config_modal = ConfigModalState::Active {
            selected_field: 0,
            editing: false,
            static_field_count: CRUNCHR_STATIC_FIELDS,
        };
        assert(self.cached_channels.len() == self@.cached_channels.len());
        assert(app.channels.len() == app.deep_view().channels.len());
    }

    /// A key while a text field is edited.
    fn edit_key(&mut self, field: usize, key: Key)
        requires
            old(self)@.wf(),
            old(self).config_modal == (ConfigModalState::Active {
                selected_field: field,
                editing: true,
                static_field_count: 6,
            }),
        ensures
            final(self)@ == old(self)@.edit_key(field as nat, key),
    {
        match key {
            Key::Esc | Key::Enter => {
                self.config_modal = ConfigModalState::Active {
                    selected_field: field,
                    editing: false,
                    static_field_count: CRUNCHR_STATIC_FIELDS,
                };
            },
            Key::Backspace => {
                match self.config_draft.take() {
                    Some(d) => {
                        let mut draft = d;
                        if field == 2 {
                            text::pop_option(&mut draft.api_key_env);
                        } else if field == 3 {
                            text::pop_option(&mut draft.endpoint);
                        } else if field == 4 {
                            text::pop_option(&mut draft.whisper_model);
                        }
                        self.config_draft = Some(draft);
                    },
                    None => {},
                }
            },
            Key::Char(c) => {
                match self.config_draft.take() {
                    Some(d) => {
                        let mut draft = d;
                        if field == 2 {
                            text::push_option(&mut draft.api_key_env, c);
                        } else if field == 3 {
                            text::push_option(&mut draft.endpoint, c);
                        } else if field == 4 {
                            text::push_option(&mut draft.whisper_model, c);
                        }
                        self.config_draft = Some(draft);
                    },
                    None => {},
                }
            },
            _ => {},
        }
    }

    /// Saves the draft: it takes effect and goes to the host.
    fn save_draft(&mut self) -> (r: Vec<Effect>)
        ensures
            (final(self)@, r.deep_view()) == old(self)@.press(old(self)@.save_field()),
    {
        self.config_modal = ConfigModalState::Hidden;
        match self.config_draft.take() {
            Some(d) => {
                let mut draft = d;
                draft.configured = true;
                self.enabled = draft.enabled;
                self.configured = true;
                self.tandem_channels = text::copies(&draft.tandem_channels);
                self.tandem_playlists = text::copies(&draft.tandem_playlists);
                if draft.analysis.enabled {
                    self.core.analysis_config = Some(draft.analysis.duplicate());
                } else {
                    self.core.analysis_config = None;
                }
                one(Effect::UpdateConfig(draft))
            },
            None => nothing(),
        }
    }

    /// The field in focus is pressed.
    fn press(&mut self, field: usize) -> (r: Vec<Effect>)
        requires
            old(self)@.wf(),
            old(self).config_modal == (ConfigModalState::Active {
                selected_field: field,
                editing: false,
                static_field_count: 6,
            }),
        ensures
            (final(self)@, r.deep_view()) == old(self)@.press(field as nat),
    {
        assert(self.cached_channels.len() == self@.cached_channels.len());
        let save_idx: usize = CRUNCHR_STATIC_FIELDS + self.cached_channels.len();
        if field == save_idx {
            return self.save_draft();
        }
        if field == 2 || field == 3 || field == 4 {
            self.config_modal = ConfigModalState::Active {
                selected_field: field,
                editing: true,
                static_field_count: CRUNCHR_STATIC_FIELDS,
            };
            return nothing();
        }
        match self.config_draft.take() {
            Some(d) => {
                let mut draft = d;
                if field == 0 {
                    draft.enabled = !draft.enabled;
                } else if field == 1 {
                    let next = if text::same_str(draft.backend.as_str(), "whisper-cli") {
                        "voxtral-api"
                    } else if text::same_str(draft.backend.as_str(), "voxtral-api") {
                        "voxtral-local"
                    } else {
                        "whisper-cli"
                    };
                    draft.backend = next.to_owned();
                } else if field == 5 {
                    draft.analysis.enabled = !draft.analysis.enabled;
                } else {
                    let i: usize = field - CRUNCHR_STATIC_FIELDS;
                    assert(self@.cached_channels[i as int] == self.cached_channels[i as int].deep_view());
                    if flip(&mut draft.tandem_channels, self.cached_channels[i].0.as_str()) {
                        draft.enabled = true;
                    }
                }
                self.config_draft = Some(draft);
            },
            None => {},
        }
        nothing()
    }

    /// Handle keys while config modal is active.
    fn handle_config_modal_key(&mut self, key: Key) -> (r: Vec<Effect>)
        requires
            old(self)@.wf(),
        ensures
            final(self)@.wf(),
            (final(self)@, r.deep_view()) == old(self)@.modal_key(key),
    {
        assert(self.cached_channels.len() == self@.cached_channels.len());
        match self.config_modal {
            ConfigModalState::Hidden => nothing(),
            ConfigModalState::Active { selected_field, editing, static_field_count } => {
                if editing {
                    self.edit_key(selected_field, key);
                    return nothing();
                }
                match key {
                    Key::Down | Key::Char('j') => {
                        let save_idx: usize = static_field_count + self.cached_channels.len();
                        let next: usize = if selected_field < save_idx {
                            selected_field + 1
                        } else {
                            save_idx
                        };
                        self.config_modal = ConfigModalState::Active {
                            selected_field: next,
                            editing: false,
                            static_field_count,
                        };
                        nothing()
                    },
                    Key::Up | Key::Char('k') => {
                        let next: usize = if selected_field > 0 {
                            selected_field - 1
                        } else {
                            0
                        };
                        self.config_modal = ConfigModalState::Active {
                            selected_field: next,
                            editing: false,
                            static_field_count,
                        };
                        nothing()
                    },
                    Key::Enter | Key::Char(' ') => self.press(selected_field),
                    Key::Esc => {
                        self.config_modal = ConfigModalState::Hidden;
                        self.config_draft = None;
                        nothing()
                    },
                    _ => nothing(),
                }
            },
        }
    }

    /// Handle keys in the Search view.
    fn handle_search_key(&mut self, key: Key, app: &AppSnapshot) -> (r: Vec<Effect>)
        requires
            old(self)@.wf(),
            app.channels.len() < usize::MAX - 6,
        ensures
            final(self)@.wf(),
            (final(self)@, r.deep_view()) == old(self)@.search_key(key, app.deep_view()),
    {
        assert(self.search_results.len() == self@.search_results.len());
        if self.input_active {
            match key {
                Key::Esc => {
                    self.input_active = false;
                },
                Key::Enter => {
                    self.input_active = false;
                    return self.execute_search();
                },
                Key::Backspace => {
                    self.search_query.pop();
                },
                Key::Char(c) => {
                    self.search_query.push(c);
                },
                _ => {},
            }
            return nothing();
        }
        match key {
            Key::Char('/') => {
                self.input_active = true;
            },
            Key::Char('c') => {
                self.open_config_modal(app);
            },
            Key::Tab => {
                self.view = CrunchrView::Queue;
            },
            Key::Down | Key::Char('j') => {
                if self.search_results.len() > 0 {
                    self.selected_result = (self.selected_result + 1) % self.search_results.len();
                    return self.refresh_selected_analysis();
                }
            },
            Key::Up | Key::Char('k') => {
                if self.search_results.len() > 0 {
                    self.selected_result = if self.selected_result == 0 {
                        self.search_results.len() - 1
                    } else {
                        self.selected_result - 1
                    };
                    return self.refresh_selected_analysis();
                }
            },
            Key::Enter => {
                if self.selected_result < self.search_results.len() {
                    assert(self@.search_results[self.selected_result as int]
                        == self.search_results[self.selected_result as int].deep_view());
                    match &self.search_results[self.selected_result].video_path {
                        Some(p) => {
                            return one(Effect::PlayFile(p.clone()));
                        },
                        None => {},
                    }
                }
            },
            Key::Esc => {
                return one(Effect::NavigateBack);
            },
            _ => {},
        }
        nothing()
    }

    /// Handle keys in the Queue view.
    fn handle_queue_key(&mut self, key: Key)
        ensures
            final(self)@ == old(self)@.queue_key(key),
    {
        match key {
            Key::Tab => {
                self.view = CrunchrView::RecordingPicker;
            },
            Key::Esc => {
                self.view = CrunchrView::Search;
            },
            _ => {},
        }
    }

    /// Takes recordings in one after the other, as far as the host knows them, and brings the
    /// queue into view if that leads to anything.
    pub fn process_recordings(&mut self, ids: &Vec<u128>, app: &AppSnapshot) -> (r: Vec<Effect>)
        requires
            old(self)@.wf(),
        ensures
            final(self)@.wf(),
            (final(self)@, r.deep_view()) == old(self)@.process(
                ids@,
                app.deep_view().recordings,
            ),
    {
        let mut out = nothing();
        let ghost all = app.deep_view().recordings;
        let mut i: usize = 0;
        assert(ids@.take(0) == Seq::<u128>::empty());
        while i < ids.len()
            invariant
                i <= ids.len(),
                all == app.deep_view().recordings,
                self@.wf(),
                (self@, out.deep_view()) == old(self)@.take_in(ids@.take(i as int), all),
            decreases ids.len() - i,
        {
            let id: u128 = ids[i];
            assert(ids@.take(i + 1).drop_last() == ids@.take(i as int));
            assert(ids@.take(i + 1).last() == id);
            match host::find_recording(&app.recordings, id) {
                Some(rec) => {
                    let title = rec.title();
                    let more = self.queue_recording(
                        id,
                        rec.channel_name.clone(),
                        title,
                        rec.output_path.clone(),
                    );
                    put_all(&mut out, more);
                },
                None => {},
            }
            i = i + 1;
        }
        assert(ids@.take(ids.len() as int) == ids@);
        assert(out.len() == out.deep_view().len());
        if out.len() > 0 {
            self.view = CrunchrView::Queue;
        }
        out
    }

    /// Handle keys in the RecordingPicker view.
    fn handle_picker_key(&mut self, key: Key, app: &AppSnapshot) -> (r: Vec<Effect>)
        requires
            old(self)@.wf(),
        ensures
            final(self)@.wf(),
            !(key is Enter) ==> (final(self)@, r.deep_view()) == old(self)@.picker_key(
                key,
                app.deep_view(),
                Seq::empty(),
            ),
            key is Enter ==> exists|picked: Seq<u128>| #[trigger]
                old(self)@.relisted(app.deep_view()).picker.may_pick(picked) && (
                    final(self)@,
                    r.deep_view(),
                ) == old(self)@.picker_key(key, app.deep_view(), picked),
    {
        self.picker.refresh(&app.recordings, &self.core.in_flight);
        assert(self@ == old(self)@.relisted(app.deep_view()));
        match key {
            Key::Tab => {
                self.view = CrunchrView::Search;
            },
            Key::Enter => {
                let ghost s = self@;
                let picked = self.picker.take_picked();
                assert(self@ == (CrunchrModel { picker: s.picker.cleared(), ..s }));
                assert(s.picker.may_pick(picked@));
                return self.process_recordings(&picked, app);
            },
            Key::Esc => {
                self.picker.selections.clear();
                self.view = CrunchrView::Search;
                assert(self.picker.deep_view() == old(self)@.relisted(app.deep_view()).picker.cleared());
            },
            _ => {
                self.picker.on_key(key, &app.recordings, &self.core.in_flight);
            },
        }
        nothing()
    }

    /// Takes in a key.
    pub fn on_key(&mut self, key: Key, app: &AppSnapshot) -> (r: Vec<Effect>)
        requires
            old(self)@.wf(),
            app.channels.len() < usize::MAX - 6,
        ensures
            final(self)@.wf(),
            old(self)@.key_leads_to(key, app.deep_view(), final(self)@, r.deep_view()),
    {
        if !self.configured && matches!(self.config_modal, ConfigModalState::Hidden) {
            self.open_config_modal(app);
        }
        if !matches!(self.config_modal, ConfigModalState::Hidden) {
            return self.handle_config_modal_key(key);
        }
        match self.view {
            CrunchrView::Search => self.handle_search_key(key, app),
            CrunchrView::Queue => {
                self.handle_queue_key(key);
                nothing()
            },
            CrunchrView::RecordingPicker => self.handle_picker_key(key, app),
        }
    }

    /// The number of jobs that are not over, if any, for the status line.
    pub fn status_line(&self) -> (r: Option<String>)
        ensures
            r.deep_view() == self@.status_line(),
    {
        let pending = self.pending();
        if pending > 0 {
            let n = number::decimal(pending as u64);
            Some(text::cat("CR:", n.as_str()))
        } else {
            None
        }
    }

    /// How many jobs are not over.
    pub fn pending(&self) -> (r: usize)
        ensures
            r == model::pending_jobs(self.queue.deep_view()),
    {
        let mut n: usize = 0;
        let mut i: usize = 0;
        let ghost jobs = self.queue.deep_view();
        assert(jobs.take(0) == Seq::<JobModel>::empty());
        while i < self.queue.len()
            invariant
                n <= i <= self.queue.len(),
                jobs == self.queue.deep_view(),
                n == model::pending_jobs(jobs.take(i as int)),
            decreases self.queue.len() - i,
        {
            assert(jobs.take(i + 1).drop_last() == jobs.take(i as int));
            assert(jobs.take(i + 1).last() == self.queue[i as int].deep_view());
            if !self.queue[i].state.is_over() {
                n = n + 1;
            }
            i = i + 1;
        }
        assert(jobs.take(self.queue.len() as int) == jobs);
        n
    }

    /// Notes where the plugin keeps its files.
    pub fn set_data_dir(&mut self, data_dir: String)
        requires
            old(self)@.wf(),
        ensures
            final(self)@.wf(),
            final(self)@ == (CrunchrModel { data_dir: data_dir@, ..old(self)@ }),
    {
        self.core.data_dir = data_dir;
    }

    /// The files of the database: under its old name and under its name.
    pub fn database_files(&self) -> (r: (JoinedPath, JoinedPath))
        ensures
            r.0.deep_view() == (PathModel { base: self@.data_dir, parts: seq!["sloptube.db"@] }),
            r.1.deep_view() == (PathModel { base: self@.data_dir, parts: seq!["crunchr.db"@] }),
    {
        let dir = JoinedPath::of(self.core.data_dir.as_str());
        let old_db = dir.with("sloptube.db");
        let new_db = dir.with("crunchr.db");
        assert(old_db.deep_view() == (PathModel {
            base: self@.data_dir,
            parts: seq!["sloptube.db"@],
        }));
        assert(new_db.deep_view() == (PathModel {
            base: self@.data_dir,
            parts: seq!["crunchr.db"@],
        }));
        (old_db, new_db)
    }

    /// Whether the database has to be given its name: only if it has its old one and would
    /// overwrite nothing.
    pub fn renames_database(old_exists: bool, new_exists: bool) -> (r: bool)
        ensures
            r == (old_exists && !new_exists),
    {
        old_exists && !new_exists
    }

    /// Starts the plugin once its database is open.
    pub fn init(&mut self, config: &CrunchrConfig, backend: Backend, whisper_found: bool) -> (r: Vec<
        Effect,
    >)
        requires
            old(self)@.wf(),
        ensures
            final(self)@.wf(),
            final(self)@ == old(self)@.initialized(
                config.deep_view(),
                backend.deep_view(),
                whisper_found,
            ),
            r.deep_view() == final(self)@.top_words(),
    {
        self.core.db_open = true;
        let name = backend.backend_name();
        self.backend_available = if text::same_str(name, "whisper-cli") {
            whisper_found
        } else {
            text::same_str(name, "voxtral")
        };
        self.core.backend = Some(backend);
        if config.analysis.enabled {
            self.core.analysis_config = Some(config.analysis.duplicate());
        }
        self.enabled = config.enabled;
        self.configured = config.configured;
        self.tandem_channels = text::copies(&config.tandem_channels);
        self.tandem_playlists = text::copies(&config.tandem_playlists);
        self.refresh_word_frequencies()
    }

    /// Shuts the plugin down.
    pub fn shutdown(&mut self)
        requires
            old(self)@.wf(),
        ensures
            final(self)@.wf(),
            final(self)@ == old(self)@.shut_down(),
    {
        self.core.db_open = false;
        self.core.backend = None;
    }

    /// What is known of a recording's transcript, from what the database holds of it.
    pub fn recording_info(&self, rows: RecordingRows) -> (r: Option<CrunchrRecordingInfo>)
        ensures
            r.deep_view() == if self@.db_open {
                model::info_from(rows.deep_view())
            } else {
                None
            },
            r.deep_view() == self@.info(rows.deep_view()),
    {
        if !self.core.db_open {
            return None;
        }
        let status = match rows.status {
            Some(s) => s,
            None => {
                return None;
            },
        };
        match rows.video_id {
            Some(_) => {},
            None => {
                return None;
            },
        }
        let segment_count: usize = match rows.segments {
            Some(n) => n as usize,
            None => 0,
        };
        let word_count: usize = match rows.words {
            Some(n) => n as usize,
            None => 0,
        };
        match rows.analysis {
            Some((summary, topics, sentiment)) => {
                let list = analysis::read_topics(topics.as_str());
                Some(
                    CrunchrRecordingInfo {
                        status,
                        segment_count,
                        word_count,
                        has_analysis: true,
                        summary: Some(summary),
                        topics: list,
                        sentiment: Some(sentiment),
                    },
                )
            },
            None => {
                let none: Vec<String> = Vec::new();
                assert(none.deep_view() == Seq::<Seq<char>>::empty());
                Some(
                    CrunchrRecordingInfo {
                        status,
                        segment_count,
                        word_count,
                        has_analysis: false,
                        summary: None,
                        topics: none,
                        sentiment: None,
                    },
                )
            },
        }
    }

    /// The backend, once the plugin is started.
    pub fn backend(&self) -> (r: Option<&Backend>)
        ensures
            r.deep_view() == self@.backend,
    {
        match &self.core.backend {
            Some(b) => Some(b),
            None => None,
        }
    }
}

/// The segments as they come out of the database.
fn segments_of(rows: &Vec<(usize, Double, Double, String)>) -> (r: Vec<Segment>)
    ensures
        r.deep_view() == model::stored_segments(rows.deep_view()),
{
    let mut out: Vec<Segment> = Vec::new();
    let mut i: usize = 0;
    let ghost all = rows.deep_view();
    assert(out.deep_view() == model::stored_segments(all.take(0)));
    while i < rows.len()
        invariant
            i <= rows.len(),
            all == rows.deep_view(),
            out.deep_view() == model::stored_segments(all.take(i as int)),
        decreases rows.len() - i,
    {
        let ghost before = out.deep_view();
        assert(all[i as int] == rows[i as int].deep_view());
        let s = Segment {
            index: rows[i].0,
            start_sec: rows[i].1,
            end_sec: rows[i].2,
            text: rows[i].3.clone(),
            speaker: None,
            confidence: None,
        };
        let ghost m = s.deep_view();
        out.push(s);
        assert(out.deep_view() == before.push(m));
        assert(all.take(i + 1) == all.take(i as int).push(all[i as int]));
        assert(model::stored_segments(all.take(i + 1)) == model::stored_segments(
            all.take(i as int),
        ).push(m));
        i = i + 1;
    }
    assert(all.take(rows.len() as int) == all);
    out
}

} // verus!
