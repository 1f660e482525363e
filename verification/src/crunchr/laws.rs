//! What holds of the plugin as a whole.
use vstd::prelude::*;

use crate::config;
use crate::config::{AnalysisConfigModel, ConfigModalState, CrunchrConfigModel};
use crate::crunchr::db;
use crate::crunchr::model;
use crate::crunchr::model::CrunchrModel;
use crate::crunchr::transcribe::BackendModel;
use crate::crunchr::types::{
    AnalysisModel, ChunkModel, EffectModel, EventModel, HitModel, JobModel, PipelineState, RowsModel, SegmentModel,
};
use crate::host;
use crate::host::{AppModel, Key, PathModel, RecordingModel};
use crate::ids;
use crate::number;
use crate::number::Double;
use crate::picker;

verus! {

// ---------------------------------------------------------------------------
// The queue
// ---------------------------------------------------------------------------

/// No recording has two jobs.
pub open spec fn once(queue: Seq<JobModel>) -> bool {
    forall|i: int, j: int|
        0 <= i < j < queue.len() ==> (#[trigger] queue[i]).recording_id != (
        #[trigger] queue[j]).recording_id
}

/// A recording that has a job is in flight exactly while its job is not over.
pub open spec fn guarded(s: CrunchrModel) -> bool {
    forall|i: int|
        0 <= i < s.queue.len() ==> s.in_flight.contains((#[trigger] s.queue[i]).recording_id)
            == !s.queue[i].state.over()
}

/// What the concurrency guard keeps: no recording has two jobs, and a recording that has one is in
/// flight exactly while it is not over.
pub open spec fn orderly(s: CrunchrModel) -> bool {
    once(s.queue) && guarded(s)
}

/// The recording that an event is about.
pub open spec fn subject(event: EventModel) -> u128 {
    match event {
        EventModel::AudioExtracted { recording_id, .. } => recording_id,
        EventModel::TranscriptionComplete { recording_id, .. } => recording_id,
        EventModel::ChunkingComplete { recording_id, .. } => recording_id,
        EventModel::AnalysisComplete { recording_id, .. } => recording_id,
        EventModel::StageError { recording_id, .. } => recording_id,
    }
}

/// Whether chunks are analyzed.
pub open spec fn analyzes(s: CrunchrModel) -> bool {
    s.analysis_config matches Some(c) && c.enabled
}

/// Where a job is put, the ids stay.
proof fn lemma_put(s: CrunchrModel, id: u128, job: JobModel)
    requires
        job.recording_id == id,
    ensures
        s.put(id, job).queue.len() == s.queue.len(),
        forall|i: int|
            0 <= i < s.queue.len() ==> (#[trigger] s.put(id, job).queue[i]).recording_id
                == s.queue[i].recording_id,
        once(s.queue) ==> once(s.put(id, job).queue),
        forall|other: u128| #[trigger]
            model::job_at(s.put(id, job).queue, other) == model::job_at(s.queue, other),
        s.queued(id) ==> s.put(id, job).job(id) == job,
{
    model::lemma_job_at(s.queue, id);
    let t = s.put(id, job);
    assert forall|other: u128| #[trigger]
        model::job_at(t.queue, other) == model::job_at(s.queue, other) by {
        model::lemma_job_at(s.queue, other);
        let k = model::job_at(s.queue, other);
        assert forall|j: int| 0 <= j < k implies (#[trigger] t.queue[j]).recording_id != other by {
            assert(s.queue[j].recording_id != other);
        }
        model::lemma_job_at_is(t.queue, other, k);
    }
}

/// A job put into a state keeps order if its recording is in flight exactly while it is not over;
/// one that is over keeps order once its recording lands.
proof fn lemma_put_orderly(s: CrunchrModel, id: u128, job: JobModel)
    requires
        orderly(s),
        job.recording_id == id,
    ensures
        (s.queued(id) ==> s.in_flight.contains(id) == !job.state.over()) ==> orderly(
            s.put(id, job),
        ),
        job.state.over() ==> orderly(s.put(id, job).landed(id)),
{
    lemma_put(s, id, job);
    model::lemma_job_at(s.queue, id);
    let t = s.put(id, job);
    let k = model::job_at(s.queue, id);
    if s.queued(id) ==> s.in_flight.contains(id) == !job.state.over() {
        assert forall|i: int| 0 <= i < t.queue.len() implies t.in_flight.contains(
            (#[trigger] t.queue[i]).recording_id,
        ) == !t.queue[i].state.over() by {
            if i != k {
                assert(t.queue[i] == s.queue[i]);
            }
        }
    }
    if job.state.over() {
        let u = t.landed(id);
        assert forall|i: int| 0 <= i < u.queue.len() implies u.in_flight.contains(
            (#[trigger] u.queue[i]).recording_id,
        ) == !u.queue[i].state.over() by {
            if i == k {
            } else if k < s.queue.len() {
                assert(t.queue[i] == s.queue[i]);
                assert(s.queue[i].recording_id != s.queue[k].recording_id);
            } else {
                assert(s.queue[i].recording_id != id);
            }
        }
    }
}

/// Starting a stage keeps order.
pub proof fn law_stage_orderly(s: CrunchrModel, id: u128)
    requires
        orderly(s),
    ensures
        orderly(s.start_next_stage(id).0),
{
    if s.queued(id) {
        model::lemma_job_at(s.queue, id);
        let j = s.job(id);
        let next = match j.state {
            PipelineState::Pending => PipelineState::ExtractingAudio,
            PipelineState::ExtractingAudio => PipelineState::Transcribing,
            _ => PipelineState::Chunking,
        };
        assert(s.in_flight.contains(s.queue[model::job_at(s.queue, id)].recording_id)
            == !j.state.over());
        if !j.state.over() {
            lemma_put_orderly(s, id, JobModel { state: next, ..j });
        }
        lemma_put_orderly(
            s,
            id,
            JobModel {
                state: PipelineState::Failed,
                error: Some("No transcription backend available"@),
                ..j
            },
        );
        lemma_put_orderly(
            s,
            id,
            JobModel {
                state: PipelineState::Failed,
                error: Some("No segments found for chunking"@),
                ..j
            },
        );
    }
}

/// Entering a job for a recording that has none and is in flight keeps order.
proof fn lemma_enqueued_orderly(
    s: CrunchrModel,
    id: u128,
    channel_name: Seq<char>,
    title: Seq<char>,
    video_path: Seq<char>,
)
    requires
        orderly(s),
        s.in_flight.contains(id),
        !s.queued(id),
    ensures
        orderly(s.enqueued(id, channel_name, title, video_path).0),
{
    model::lemma_job_at(s.queue, id);
    let job = JobModel {
        recording_id: id,
        channel_name,
        title,
        video_path,
        audio_path: None,
        state: PipelineState::Pending,
        error: None,
    };
    let t = CrunchrModel { queue: s.queue.push(job), ..s };
    assert(once(t.queue)) by {
        assert forall|i: int, j: int| 0 <= i < j < t.queue.len() implies (
        #[trigger] t.queue[i]).recording_id != (#[trigger] t.queue[j]).recording_id by {
            assert(t.queue[i] == s.queue[i]);
            if j < s.queue.len() {
                assert(t.queue[j] == s.queue[j]);
            }
        }
    }
    assert forall|i: int| 0 <= i < t.queue.len() implies t.in_flight.contains(
        (#[trigger] t.queue[i]).recording_id,
    ) == !t.queue[i].state.over() by {
        if i < s.queue.len() {
            assert(t.queue[i] == s.queue[i]);
        }
    }
    law_stage_orderly(t, id);
}

/// Taking a recording in keeps order, and so does the answer of the database.
pub proof fn law_queue_orderly(
    s: CrunchrModel,
    id: u128,
    channel_name: Seq<char>,
    title: Seq<char>,
    video_path: Seq<char>,
    outcome: Result<(), Seq<char>>,
)
    requires
        orderly(s),
    ensures
        orderly(s.queue_recording(id, channel_name, title, video_path).0),
        !s.queued(id) && (outcome is Ok ==> s.in_flight.contains(id)) ==> orderly(
            s.video_inserted(id, channel_name, title, video_path, outcome).0,
        ),
{
    model::lemma_job_at(s.queue, id);
    let flying = CrunchrModel { in_flight: s.in_flight.insert(id), ..s };
    if !s.queued(id) {
        assert forall|i: int| 0 <= i < flying.queue.len() implies flying.in_flight.contains(
            (#[trigger] flying.queue[i]).recording_id,
        ) == !flying.queue[i].state.over() by {
            assert(s.queue[i].recording_id != id);
        }
        lemma_enqueued_orderly(flying, id, channel_name, title, video_path);
    }
    if !s.queued(id) {
        if s.in_flight.contains(id) {
            lemma_enqueued_orderly(s, id, channel_name, title, video_path);
        }
        lemma_landed_orderly(s, id);
    }
}

/// Every report of a stage keeps order. The one exception are chunks that come for a job which is
/// over, where they lead to an analysis.
pub proof fn law_event_orderly(s: CrunchrModel, event: EventModel)
    requires
        orderly(s),
        event is ChunkingComplete && analyzes(s) && s.queued(subject(event)) ==> !s.job(
            subject(event),
        ).state.over(),
    ensures
        orderly(s.pipeline_event(event).0),
{
    let id = subject(event);
    model::lemma_job_at(s.queue, id);
    let j = s.job(id);
    if s.queued(id) {
        assert(j.recording_id == id);
        assert(s.in_flight.contains(s.queue[model::job_at(s.queue, id)].recording_id)
            == !j.state.over());
    }
    match event {
        EventModel::AudioExtracted { recording_id, audio_path } => {
            let with = JobModel { audio_path: Some(audio_path), ..j };
            if s.queued(id) {
                lemma_put_orderly(s, id, with);
            }
            law_stage_orderly(s.with_audio(id, audio_path), id);
        },
        EventModel::TranscriptionComplete { recording_id, segments, full_text } => {
            law_stage_orderly(s, id);
        },
        EventModel::ChunkingComplete { recording_id, video_id, chunks, word_frequencies } => {
            if s.queued(id) {
                if analyzes(s) {
                    lemma_put_orderly(s, id, JobModel { state: PipelineState::Analyzing, ..j });
                }
                lemma_put_orderly(s, id, JobModel { state: PipelineState::Complete, ..j });
            } else {
                lemma_landed_orderly(s, id);
            }
        },
        EventModel::AnalysisComplete { recording_id, summary, topics, sentiment } => {
            if s.queued(id) {
                lemma_put_orderly(s, id, JobModel { state: PipelineState::Complete, ..j });
            } else {
                lemma_landed_orderly(s, id);
            }
        },
        EventModel::StageError { recording_id, error } => {
            if s.queued(id) {
                lemma_put_orderly(
                    s,
                    id,
                    JobModel { state: PipelineState::Failed, error: Some(error), ..j },
                );
            } else {
                lemma_landed_orderly(s, id);
            }
        },
    }
}

/// A recording without a job can land.
proof fn lemma_landed_orderly(s: CrunchrModel, id: u128)
    requires
        orderly(s),
        !s.queued(id),
    ensures
        orderly(s.landed(id)),
{
    model::lemma_job_at(s.queue, id);
    assert forall|i: int| 0 <= i < s.queue.len() implies s.landed(id).in_flight.contains(
        (#[trigger] s.queue[i]).recording_id,
    ) == !s.queue[i].state.over() by {
        assert(s.queue[i].recording_id != id);
    }
}

/// The stored segments of a recording in flight keep order, found or not.
pub proof fn law_segments_orderly(
    s: CrunchrModel,
    id: u128,
    found: Option<(i64, Seq<(usize, Double, Double, Seq<char>)>)>,
)
    requires
        orderly(s),
    ensures
        orderly(s.segments_loaded(id, found).0),
{
    model::lemma_job_at(s.queue, id);
    if s.queued(id) {
        lemma_put_orderly(
            s,
            id,
            JobModel {
                state: PipelineState::Failed,
                error: Some("No segments found for chunking"@),
                ..s.job(id)
            },
        );
    } else {
        lemma_landed_orderly(s, id);
    }
}

/// Taking recordings in one after the other keeps order.
pub proof fn law_take_in_orderly(s: CrunchrModel, ids: Seq<u128>, all: Seq<RecordingModel>)
    requires
        orderly(s),
    ensures
        orderly(s.take_in(ids, all).0),
        orderly(s.process(ids, all).0),
    decreases ids.len(),
{
    if ids.len() > 0 {
        law_take_in_orderly(s, ids.drop_last(), all);
        let before = s.take_in(ids.drop_last(), all).0;
        match host::recording_with(all, ids.last()) {
            Some(r) => {
                law_queue_orderly(
                    before,
                    ids.last(),
                    r.channel_name,
                    host::title_of(r),
                    r.output_path,
                    Ok(()),
                );
            },
            None => {},
        }
    }
}

/// A recording that ends keeps order.
pub proof fn law_recording_orderly(s: CrunchrModel, id: u128, finished: bool, app: AppModel)
    requires
        orderly(s),
    ensures
        orderly(s.recording_finished(id, finished, app).0),
{
    match host::recording_with(app.recordings, id) {
        Some(r) => {
            law_queue_orderly(s, id, r.channel_name, host::title_of(r), r.output_path, Ok(()));
        },
        None => {},
    }
}

/// A new plugin is valid and in order, and both starting and shutting down keep it so.
pub proof fn law_start_orderly(
    s: CrunchrModel,
    c: CrunchrConfigModel,
    backend: BackendModel,
    whisper_found: bool,
)
    requires
        orderly(s),
        s.wf(),
    ensures
        orderly(model::fresh()) && model::fresh().wf() && model::fresh().ready(),
        ({
            let started = s.initialized(c, backend, whisper_found);
            orderly(started) && started.wf() && started.ready()
        }),
        orderly(s.shut_down()) && s.shut_down().wf(),
{
}

/// Every key keeps order.
pub proof fn law_key_orderly(s: CrunchrModel, key: Key, app: AppModel, picked: Seq<u128>)
    requires
        orderly(s),
    ensures
        orderly(s.on_key(key, app, picked).0),
{
    let r = s.relisted(app);
    law_take_in_orderly(
        CrunchrModel { picker: r.picker.cleared(), ..r },
        picked,
        app.recordings,
    );
}

/// A recording in flight, or one that has a job, is not taken in again.
pub proof fn law_not_taken_twice(
    s: CrunchrModel,
    id: u128,
    channel_name: Seq<char>,
    title: Seq<char>,
    video_path: Seq<char>,
)
    requires
        s.in_flight.contains(id) || s.queued(id),
    ensures
        s.queue_recording(id, channel_name, title, video_path) == (s, Seq::<EffectModel>::empty()),
{
}

/// Jobs only move on: no report of a stage brings a job that is not over back to an earlier stage,
/// nor touches the job of another recording.
pub proof fn law_stages_advance(s: CrunchrModel, event: EventModel, i: int)
    requires
        0 <= i < s.queue.len(),
    ensures
        ({
            let after = s.pipeline_event(event).0;
            &&& after.queue.len() == s.queue.len()
            &&& after.queue[i].recording_id == s.queue[i].recording_id
            &&& !s.queue[i].state.over() ==> after.queue[i].state.rank() >= s.queue[i].state.rank()
            &&& s.queue[i].recording_id != subject(event) ==> after.queue[i] == s.queue[i]
        }),
{
    let id = subject(event);
    model::lemma_job_at(s.queue, id);
    match event {
        EventModel::AudioExtracted { recording_id, audio_path } => {
            let with = JobModel { audio_path: Some(audio_path), ..s.job(id) };
            if s.queued(id) {
                lemma_put(s, id, with);
            }
            model::lemma_job_at(s.with_audio(id, audio_path).queue, id);
        },
        _ => {},
    }
}

/// The status line is empty exactly when every job is over.
pub proof fn law_status_line(s: CrunchrModel)
    ensures
        s.status_line() is None <==> forall|i: int|
            0 <= i < s.queue.len() ==> (#[trigger] s.queue[i]).state.over(),
{
    lemma_pending(s.queue);
}

proof fn lemma_pending(queue: Seq<JobModel>)
    ensures
        model::pending_jobs(queue) == 0 <==> forall|i: int|
            0 <= i < queue.len() ==> (#[trigger] queue[i]).state.over(),
        model::pending_jobs(queue) <= queue.len(),
    decreases queue.len(),
{
    if queue.len() > 0 {
        let t = queue.drop_last();
        lemma_pending(t);
        if forall|i: int| 0 <= i < queue.len() ==> (#[trigger] queue[i]).state.over() {
            assert forall|i: int| 0 <= i < t.len() implies (#[trigger] t[i]).state.over() by {
                assert(queue[i].state.over());
            }
            assert(queue[queue.len() - 1].state.over());
        }
        if model::pending_jobs(queue) == 0 {
            assert forall|i: int| 0 <= i < queue.len() implies (#[trigger] queue[i]).state.over() by {
                if i < t.len() {
                    assert(t[i].state.over());
                }
            }
        }
    }
}

// ---------------------------------------------------------------------------
// Runs
// ---------------------------------------------------------------------------

/// A recording taken in with a database and a backend, all of whose stages succeed, and with the
/// analysis off: its job ends complete, and it is no longer in flight.
pub proof fn law_run_completes(
    s: CrunchrModel,
    id: u128,
    channel_name: Seq<char>,
    title: Seq<char>,
    video_path: Seq<char>,
    audio_path: Seq<char>,
    segments: Seq<SegmentModel>,
    full_text: Seq<char>,
    video_id: i64,
    rows: Seq<(usize, Double, Double, Seq<char>)>,
    chunks: Seq<ChunkModel>,
    words: Seq<(Seq<char>, usize)>,
)
    requires
        s.db_open,
        s.backend_available,
        !analyzes(s),
        !s.in_flight.contains(id),
        !s.queued(id),
    ensures
        ({
            let s1 = s.queue_recording(id, channel_name, title, video_path).0;
            let s2 = s1.video_inserted(id, channel_name, title, video_path, Ok(())).0;
            let s3 = s2.audio_extracted(id, audio_path).0;
            let s4 = s3.transcription_complete(id, segments, full_text).0;
            let s5 = s4.segments_loaded(id, Some((video_id, rows))).0;
            let s6 = s5.chunking_complete(id, video_id, chunks, words).0;
            &&& s1.in_flight.contains(id)
            &&& s2.queued(id) && s2.job(id).state is ExtractingAudio
            &&& s3.job(id).state is Transcribing && s3.job(id).audio_path == Some(audio_path)
            &&& s4.job(id).state is Chunking
            &&& s6.queued(id) && s6.job(id).state is Complete && s6.job(id).error is None
            &&& s6.in_flight == s.in_flight
        }),
{
    model::lemma_job_at(s.queue, id);
    let s1 = s.queue_recording(id, channel_name, title, video_path).0;
    let job = JobModel {
        recording_id: id,
        channel_name,
        title,
        video_path,
        audio_path: None,
        state: PipelineState::Pending,
        error: None,
    };
    let p = CrunchrModel { queue: s1.queue.push(job), ..s1 };
    assert forall|j: int| 0 <= j < s1.queue.len() implies (#[trigger] p.queue[j]).recording_id
        != id by {
        assert(s1.queue[j].recording_id != id);
    }
    model::lemma_job_at_is(p.queue, id, s1.queue.len() as int);
    lemma_put(p, id, JobModel { state: PipelineState::ExtractingAudio, ..p.job(id) });
    let s2 = s1.video_inserted(id, channel_name, title, video_path, Ok(())).0;
    lemma_put(s2, id, JobModel { audio_path: Some(audio_path), ..s2.job(id) });
    let a = s2.with_audio(id, audio_path);
    lemma_put(a, id, JobModel { state: PipelineState::Transcribing, ..a.job(id) });
    let s3 = s2.audio_extracted(id, audio_path).0;
    lemma_put(s3, id, JobModel { state: PipelineState::Chunking, ..s3.job(id) });
    let s4 = s3.transcription_complete(id, segments, full_text).0;
    lemma_put(s4, id, JobModel { state: PipelineState::Complete, ..s4.job(id) });
    let s6 = s4.segments_loaded(id, Some((video_id, rows))).0.chunking_complete(
        id,
        video_id,
        chunks,
        words,
    ).0;
    assert(s6.in_flight == s.in_flight.insert(id).remove(id));
    assert(s.in_flight.insert(id).remove(id) == s.in_flight);
}

/// With the analysis on, chunking leads to it, and its result ends the run, whether it succeeded
/// or not.
pub proof fn law_analysis_completes(
    s: CrunchrModel,
    id: u128,
    video_id: i64,
    chunks: Seq<ChunkModel>,
    words: Seq<(Seq<char>, usize)>,
    summary: Seq<char>,
    topics: Seq<char>,
    sentiment: Seq<char>,
)
    requires
        s.queued(id),
        analyzes(s),
    ensures
        ({
            let (s1, effects) = s.chunking_complete(id, video_id, chunks, words);
            let s2 = s1.analysis_complete(id, summary, topics, sentiment).0;
            &&& s1.job(id).state is Analyzing
            &&& effects.last() is Analyze
            &&& s2.job(id).state is Complete
            &&& !s2.in_flight.contains(id)
        }),
{
    model::lemma_job_at(s.queue, id);
    lemma_put(s, id, JobModel { state: PipelineState::Analyzing, ..s.job(id) });
    let s1 = s.chunking_complete(id, video_id, chunks, words).0;
    lemma_put(s1, id, JobModel { state: PipelineState::Complete, ..s1.job(id) });
}

/// Whatever stage fails, the job is marked as failed with the reason, the recording is no longer
/// in flight, and the user is told.
pub proof fn law_error_ends_run(s: CrunchrModel, id: u128, error: Seq<char>)
    requires
        s.queued(id),
    ensures
        ({
            let (after, effects) = s.pipeline_event(
                EventModel::StageError { recording_id: id, error },
            );
            &&& after.job(id).state is Failed
            &&& after.job(id).error == Some(error)
            &&& !after.in_flight.contains(id)
            &&& after.last_error == Some(error)
            &&& effects.last() == EffectModel::SetStatus("CrunchR error: "@ + error)
        }),
{
    model::lemma_job_at(s.queue, id);
    lemma_put(
        s,
        id,
        JobModel { state: PipelineState::Failed, error: Some(error), ..s.job(id) },
    );
}

/// A recording that is new goes to the database first, under its own key and with what is known of
/// it; it is in flight from then on, and nothing else changes.
pub proof fn law_video_stored(
    s: CrunchrModel,
    id: u128,
    channel_name: Seq<char>,
    title: Seq<char>,
    video_path: Seq<char>,
)
    requires
        s.db_open,
        !s.in_flight.contains(id),
        !s.queued(id),
    ensures
        s.queue_recording(id, channel_name, title, video_path) == (
            CrunchrModel { in_flight: s.in_flight.insert(id), ..s },
            seq![
                EffectModel::InsertVideo {
                    recording_id: id,
                    key: ids::id_text_of(id),
                    channel_name,
                    title,
                    video_path,
                },
            ],
        ),
{
}

/// A recording that the database has taken gets a job with what is known of it, and the audio of
/// its own video is extracted, into the plugin's directory for audio. Without a database this comes
/// at once. One that the database has not taken gets no job, is no longer in flight, and the user
/// is told why.
pub proof fn law_audio_asked_for(
    s: CrunchrModel,
    id: u128,
    channel_name: Seq<char>,
    title: Seq<char>,
    video_path: Seq<char>,
    error: Seq<char>,
)
    requires
        !s.queued(id),
    ensures
        ({
            let (after, effects) = s.video_inserted(id, channel_name, title, video_path, Ok(()));
            let extract = EffectModel::ExtractAudio {
                recording_id: id,
                video_path,
                output_dir: PathModel { base: s.data_dir, parts: seq!["audio"@] },
            };
            &&& after.queue.len() == s.queue.len() + 1
            &&& after.queue.drop_last() == s.queue
            &&& after.queue.last() == (JobModel {
                recording_id: id,
                channel_name,
                title,
                video_path,
                audio_path: None,
                state: PipelineState::ExtractingAudio,
                error: None,
            })
            &&& s.db_open ==> effects == seq![
                EffectModel::UpdateStatus {
                    key: ids::id_text_of(id),
                    status: "extracting_audio"@,
                    error: None,
                },
                extract,
            ]
            &&& !s.db_open ==> effects == seq![extract]
            &&& !s.db_open && !s.in_flight.contains(id) ==> s.queue_recording(
                id,
                channel_name,
                title,
                video_path,
            ) == (CrunchrModel { in_flight: s.in_flight.insert(id), ..after }, effects)
        }),
        s.video_inserted(id, channel_name, title, video_path, Err(error)) == (
            CrunchrModel {
                last_error: Some("DB insert error: "@ + error),
                in_flight: s.in_flight.remove(id),
                ..s
            },
            seq![EffectModel::SetStatus("CrunchR DB error: "@ + error)],
        ),
{
    model::lemma_job_at(s.queue, id);
    let job = JobModel {
        recording_id: id,
        channel_name,
        title,
        video_path,
        audio_path: None,
        state: PipelineState::Pending,
        error: None,
    };
    let p = CrunchrModel { queue: s.queue.push(job), ..s };
    assert forall|j: int| 0 <= j < s.queue.len() implies (#[trigger] p.queue[j]).recording_id
        != id by {
        assert(s.queue[j].recording_id != id);
    }
    model::lemma_job_at_is(p.queue, id, s.queue.len() as int);
    let after = s.video_inserted(id, channel_name, title, video_path, Ok(())).0;
    assert(after.queue.drop_last() == s.queue);
}

/// The audio that was extracted is noted under the recording's key and with its job, and is what
/// is transcribed. Without a backend the job fails instead, and the user is told.
pub proof fn law_audio_transcribed(s: CrunchrModel, id: u128, audio_path: Seq<char>)
    requires
        s.queued(id),
        s.job(id).state is ExtractingAudio,
        s.db_open,
    ensures
        ({
            let (after, effects) = s.pipeline_event(
                EventModel::AudioExtracted { recording_id: id, audio_path },
            );
            let noted = EffectModel::UpdateAudioPath { key: ids::id_text_of(id), audio_path };
            &&& after.queued(id)
            &&& s.backend_available ==> {
                &&& effects == seq![
                    noted,
                    EffectModel::UpdateStatus {
                        key: ids::id_text_of(id),
                        status: "transcribing"@,
                        error: None,
                    },
                    EffectModel::Transcribe { recording_id: id, audio_path },
                ]
                &&& after.job(id) == (JobModel {
                    audio_path: Some(audio_path),
                    state: PipelineState::Transcribing,
                    ..s.job(id)
                })
                &&& after.in_flight == s.in_flight
            }
            &&& !s.backend_available ==> {
                &&& effects == seq![
                    noted,
                    EffectModel::SetStatus("CrunchR: no transcription backend"@),
                ]
                &&& after.job(id).state is Failed
                &&& after.job(id).error == Some("No transcription backend available"@)
                &&& after.in_flight == s.in_flight.remove(id)
            }
        }),
{
    model::lemma_job_at(s.queue, id);
    lemma_put(s, id, JobModel { audio_path: Some(audio_path), ..s.job(id) });
    let a = s.with_audio(id, audio_path);
    model::lemma_job_at(a.queue, id);
    lemma_put(a, id, JobModel { state: PipelineState::Transcribing, ..a.job(id) });
    lemma_put(
        a,
        id,
        JobModel {
            state: PipelineState::Failed,
            error: Some("No transcription backend available"@),
            ..a.job(id)
        },
    );
}

/// A transcript is stored whole under the recording's key, its segments and its text; the audio it
/// was made from is removed, and no other file; then the stored segments are asked for.
pub proof fn law_transcript_stored(
    s: CrunchrModel,
    id: u128,
    segments: Seq<SegmentModel>,
    full_text: Seq<char>,
)
    requires
        s.queued(id),
        s.job(id).state is Transcribing,
        s.db_open,
    ensures
        ({
            let (after, effects) = s.pipeline_event(
                EventModel::TranscriptionComplete { recording_id: id, segments, full_text },
            );
            let key = ids::id_text_of(id);
            let stored = EffectModel::StoreTranscript { key, transcript: full_text, segments };
            let status = EffectModel::UpdateStatus { key, status: "chunking"@, error: None };
            let load = EffectModel::LoadSegments { recording_id: id, key };
            &&& s.job(id).audio_path matches Some(p) ==> effects == seq![
                stored,
                EffectModel::RemoveFile(p),
                status,
                load,
            ]
            &&& s.job(id).audio_path is None ==> effects == seq![stored, status, load]
            &&& after.queued(id)
            &&& after.job(id) == (JobModel { state: PipelineState::Chunking, ..s.job(id) })
        }),
{
    model::lemma_job_at(s.queue, id);
    lemma_put(s, id, JobModel { state: PipelineState::Chunking, ..s.job(id) });
}

/// Every stored segment is handed on to be chunked, in order, with its number, its times and its
/// text. Where there are none to be had, the job fails.
pub proof fn law_segments_handed_on(
    s: CrunchrModel,
    id: u128,
    video_id: i64,
    rows: Seq<(usize, Double, Double, Seq<char>)>,
    i: int,
)
    requires
        s.queued(id),
    ensures
        ({
            let (after, effects) = s.segments_loaded(id, Some((video_id, rows)));
            &&& after == s
            &&& effects.len() == 1
            &&& effects[0] matches EffectModel::ChunkSegments {
                recording_id,
                video_id: own,
                segments,
            } && {
                &&& recording_id == id
                &&& own == video_id
                &&& segments.len() == rows.len()
                &&& 0 <= i < rows.len() ==> {
                    &&& segments[i].index == rows[i].0
                    &&& segments[i].start_sec == rows[i].1
                    &&& segments[i].end_sec == rows[i].2
                    &&& segments[i].text == rows[i].3
                }
            }
        }),
        ({
            let (after, effects) = s.segments_loaded(id, None);
            &&& effects.len() == 0
            &&& after.queued(id)
            &&& after.job(id).state is Failed
            &&& after.job(id).error == Some("No segments found for chunking"@)
            &&& !after.in_flight.contains(id)
        }),
{
    model::lemma_job_at(s.queue, id);
    lemma_put(
        s,
        id,
        JobModel {
            state: PipelineState::Failed,
            error: Some("No segments found for chunking"@),
            ..s.job(id)
        },
    );
}

/// All chunks and all word counts are stored, with the video they are of. With the analysis on, it
/// is asked for under the recording's key, with the channel and the title of its job and the
/// settings in force; else the recording is done.
pub proof fn law_chunks_stored(
    s: CrunchrModel,
    id: u128,
    video_id: i64,
    chunks: Seq<ChunkModel>,
    words: Seq<(Seq<char>, usize)>,
)
    requires
        s.queued(id),
        s.db_open,
    ensures
        ({
            let (after, effects) = s.pipeline_event(
                EventModel::ChunkingComplete {
                    recording_id: id,
                    video_id,
                    chunks,
                    word_frequencies: words,
                },
            );
            let key = ids::id_text_of(id);
            let stored = EffectModel::StoreChunks { video_id, chunks, word_frequencies: words };
            &&& analyzes(s) ==> effects == seq![
                stored,
                EffectModel::UpdateStatus { key, status: "analyzing"@, error: None },
                EffectModel::LoadTopWords { limit: 20 },
                EffectModel::Analyze {
                    recording_id: id,
                    key,
                    channel_name: s.job(id).channel_name,
                    title: s.job(id).title,
                    config: s.analysis_config->0,
                },
            ]
            &&& !analyzes(s) ==> effects == seq![
                stored,
                EffectModel::UpdateStatus { key, status: "complete"@, error: None },
                EffectModel::LoadTopWords { limit: 20 },
            ]
        }),
{
}

/// An analysis is stored under the recording's key as it came, and the recording is done. A stage
/// that fails is noted there with its reason.
pub proof fn law_end_noted(
    s: CrunchrModel,
    id: u128,
    summary: Seq<char>,
    topics: Seq<char>,
    sentiment: Seq<char>,
    error: Seq<char>,
)
    requires
        s.db_open,
    ensures
        s.pipeline_event(
            EventModel::AnalysisComplete { recording_id: id, summary, topics, sentiment },
        ).1 == seq![
            EffectModel::StoreAnalysis { key: ids::id_text_of(id), summary, topics, sentiment },
            EffectModel::UpdateStatus {
                key: ids::id_text_of(id),
                status: "complete"@,
                error: None,
            },
            EffectModel::LoadTopWords { limit: 20 },
        ],
        s.pipeline_event(EventModel::StageError { recording_id: id, error }).1 == seq![
            EffectModel::UpdateStatus {
                key: ids::id_text_of(id),
                status: "failed"@,
                error: Some(error),
            },
            EffectModel::SetStatus("CrunchR error: "@ + error),
        ],
{
}

/// A recording that ends normally and is handled in tandem is taken in, with its own channel, title
/// and file, where the plugin is enabled.
pub proof fn law_tandem_taken_in(s: CrunchrModel, id: u128, app: AppModel, r: RecordingModel)
    requires
        s.enabled,
        host::recording_with(app.recordings, id) == Some(r),
        s.tandem_channels.contains(r.platform + ":"@ + r.channel_id) || (r.playlist matches Some(p)
            && s.tandem_playlists.contains(p)),
    ensures
        s.recording_finished(id, true, app) == s.queue_recording(
            id,
            r.channel_name,
            match r.stream_title {
                Some(t) => t,
                None => "Untitled"@,
            },
            r.output_path,
        ),
{
}

/// Picked recordings are taken in one after the other, each with its own channel, title and file;
/// one that the host does not know is passed over.
pub proof fn law_picked_taken_in(
    s: CrunchrModel,
    ids: Seq<u128>,
    id: u128,
    all: Seq<RecordingModel>,
)
    ensures
        s.take_in(Seq::empty(), all) == (s, Seq::<EffectModel>::empty()),
        match host::recording_with(all, id) {
            Some(r) => {
                let (before, first) = s.take_in(ids, all);
                let (after, more) = before.queue_recording(
                    id,
                    r.channel_name,
                    host::title_of(r),
                    r.output_path,
                );
                s.take_in(ids.push(id), all) == (after, first + more)
            },
            None => s.take_in(ids.push(id), all) == s.take_in(ids, all),
        },
{
    assert(ids.push(id).drop_last() == ids);
}

/// Enter in the picker hands over the picked recordings, selects nothing any more, and shows the
/// queue if that led to anything.
pub proof fn law_picker_enter(s: CrunchrModel, app: AppModel, picked: Seq<u128>)
    requires
        s.configured,
        s.config_modal is Hidden,
        s.view is RecordingPicker,
    ensures
        ({
            let (after, effects) = s.on_key(Key::Enter, app, picked);
            let cleared = CrunchrModel {
                picker: s.picker.refreshed(app.recordings, s.in_flight).cleared(),
                ..s
            };
            let (taken, told) = cleared.take_in(picked, app.recordings);
            &&& effects == told
            &&& after == (CrunchrModel { view: after.view, ..taken })
            &&& after.picker.selections == Set::<u128>::empty()
            &&& told.len() > 0 ==> after.view is Queue
            &&& told.len() == 0 ==> after.view is RecordingPicker
        }),
{
    let cleared = CrunchrModel {
        picker: s.picker.refreshed(app.recordings, s.in_flight).cleared(),
        ..s
    };
    lemma_take_in_frame(cleared, picked, app.recordings);
}

/// Taking recordings in leaves the picker and the view alone.
proof fn lemma_take_in_frame(s: CrunchrModel, ids: Seq<u128>, all: Seq<RecordingModel>)
    ensures
        s.take_in(ids, all).0.picker == s.picker,
        s.take_in(ids, all).0.view == s.view,
    decreases ids.len(),
{
    if ids.len() > 0 {
        lemma_take_in_frame(s, ids.drop_last(), all);
    }
}

/// The status line counts the jobs that are neither complete nor failed.
pub proof fn law_status_counts(s: CrunchrModel)
    ensures
        ({
            let busy = s.queue.filter(
                |j: JobModel| !(j.state is Complete) && !(j.state is Failed),
            ).len();
            busy > 0 ==> s.status_line() == Some("CR:"@ + number::decimal_of(busy))
        }),
{
    lemma_pending_count(s.queue);
}

proof fn lemma_pending_count(queue: Seq<JobModel>)
    ensures
        model::pending_jobs(queue) == queue.filter(
            |j: JobModel| !(j.state is Complete) && !(j.state is Failed),
        ).len(),
    decreases queue.len(),
{
    reveal(Seq::filter);
    if queue.len() > 0 {
        lemma_pending_count(queue.drop_last());
    }
}

/// The plugin starts with what its configuration says and with the backend it was given, its
/// database open. The Whisper CLI is available where its command was found, the Voxtral API always.
/// Shutting down closes the database and lets the backend go.
pub proof fn law_start(
    s: CrunchrModel,
    c: CrunchrConfigModel,
    backend: BackendModel,
    whisper_found: bool,
)
    ensures
        ({
            let t = s.initialized(c, backend, whisper_found);
            &&& t.db_open
            &&& t.backend == Some(backend)
            &&& t.enabled == c.enabled
            &&& t.configured == c.configured
            &&& t.tandem_channels == c.tandem_channels
            &&& t.tandem_playlists == c.tandem_playlists
            &&& c.analysis.enabled ==> t.analysis_config == Some(c.analysis)
            &&& !c.analysis.enabled ==> t.analysis_config == s.analysis_config
            &&& t.queue == s.queue
            &&& t.in_flight == s.in_flight
            &&& backend is Whisper ==> t.backend_available == whisper_found
            &&& backend is VoxtralApi ==> t.backend_available
            &&& backend is VoxtralLocal ==> !t.backend_available
            &&& t.shut_down() == (CrunchrModel { db_open: false, backend: None, ..t })
        }),
{
    reveal_strlit("whisper-cli");
    reveal_strlit("voxtral-local");
    reveal_strlit("voxtral");
    assert("whisper-cli"@.len() != "voxtral"@.len());
    assert("whisper-cli"@.len() != "voxtral-local"@.len());
    assert("voxtral"@.len() != "voxtral-local"@.len());
}

/// What is known of a recording is known exactly where the database has its status and its video:
/// its counts, 0 where there are none, and its analysis, if there is one.
pub proof fn law_known(rows: RowsModel)
    ensures
        model::info_from(rows) is Some <==> rows.status is Some && rows.video_id is Some,
        model::info_from(rows) matches Some(i) ==> {
            &&& rows.status == Some(i.status)
            &&& rows.segments matches Some(n) ==> n >= 0 ==> i.segment_count == n as usize
            &&& rows.segments is None ==> i.segment_count == 0
            &&& rows.words matches Some(n) ==> n >= 0 ==> i.word_count == n as usize
            &&& rows.words is None ==> i.word_count == 0
            &&& i.has_analysis <==> rows.analysis is Some
            &&& rows.analysis matches Some(a) ==> i.summary == Some(a.0) && i.sentiment == Some(
                a.2,
            ) && i.topics == crate::crunchr::analysis::topics_from(a.1)
            &&& rows.analysis is None ==> i.summary is None && i.sentiment is None
                && i.topics.len() == 0
        },
{
}

/// A recording that ends leads to something only if the plugin is enabled, the recording ended
/// normally, the host knows it, and it is handled in tandem.
pub proof fn law_tandem_only(s: CrunchrModel, id: u128, finished: bool, app: AppModel)
    requires
        s.recording_finished(id, finished, app) != (s, Seq::<EffectModel>::empty()),
    ensures
        s.enabled,
        finished,
        host::recording_with(app.recordings, id) matches Some(r) && host::in_tandem(
            r,
            s.tandem_channels,
            s.tandem_playlists,
        ),
{
}

/// Tab leads through the three views and back.
pub proof fn law_tab_cycle(s: CrunchrModel, app: AppModel, picked: Seq<u128>)
    requires
        s.configured,
        s.config_modal is Hidden,
        s.view is Search,
        !s.input_active,
    ensures
        ({
            let s1 = s.on_key(Key::Tab, app, picked).0;
            let s2 = s1.on_key(Key::Tab, app, picked).0;
            let s3 = s2.on_key(Key::Tab, app, picked).0;
            s1.view is Queue && s2.view is RecordingPicker && s3.view is Search
        }),
{
}

/// A search that finds something puts the first hit in focus, clears the error and asks for what
/// is known of that hit.
pub proof fn law_search_shows_first_hit(s: CrunchrModel, hits: Seq<HitModel>)
    requires
        s.db_open,
        hits.len() > 0,
    ensures
        ({
            let (after, effects) = s.search_finished(Ok(hits));
            &&& after.search_results == hits
            &&& after.selected_result == 0
            &&& after.last_error is None
            &&& effects == seq![EffectModel::LoadDetails { chunk_id: hits[0].chunk_id }]
        }),
{
}

/// A search that fails shows no hits and says why. An empty query shows no hits and asks for
/// nothing; without a database the user is told.
pub proof fn law_no_hits(s: CrunchrModel, error: Seq<char>)
    ensures
        ({
            let (after, effects) = s.search_finished(Err(error));
            &&& after.search_results.len() == 0
            &&& after.last_error == Some("Search error: "@ + error)
            &&& after.selected_result == 0
            &&& after.selected_analysis is None && after.selected_speaker is None
            &&& effects.len() == 0
        }),
        s.search_query.len() == 0 ==> s.execute_search() == (
            CrunchrModel { search_results: Seq::empty(), ..s },
            Seq::<EffectModel>::empty(),
        ),
        s.search_query.len() > 0 && !s.db_open ==> s.execute_search() == (
            CrunchrModel { last_error: Some("DB not available"@), ..s },
            Seq::<EffectModel>::empty(),
        ),
        s.search_query.len() > 0 && s.db_open ==> s.execute_search().0 == s,
{
}

/// While a query is typed, a character is appended and Backspace takes the last one off again;
/// Enter ends the typing and searches, Esc ends it and does not. Nothing else changes.
pub proof fn law_query_typed(s: CrunchrModel, app: AppModel, c: char)
    requires
        s.input_active,
    ensures
        s.search_key(Key::Char(c), app) == (
            CrunchrModel { search_query: s.search_query.push(c), ..s },
            Seq::<EffectModel>::empty(),
        ),
        s.search_key(Key::Char(c), app).0.search_key(Key::Backspace, app) == (
            s,
            Seq::<EffectModel>::empty(),
        ),
        s.search_query.len() == 0 ==> s.search_key(Key::Backspace, app).0 == s,
        s.search_key(Key::Enter, app) == (CrunchrModel {
            input_active: false,
            ..s
        }).execute_search(),
        s.search_key(Key::Esc, app) == (
            CrunchrModel { input_active: false, ..s },
            Seq::<EffectModel>::empty(),
        ),
{
    assert(s.search_query.push(c).drop_last() == s.search_query);
}

/// Among the hits, the focus goes down and up around the ends, and what is known of the hit in
/// focus is asked for; Enter plays the file of the hit in focus, if it has one.
pub proof fn law_hits_walked(s: CrunchrModel, app: AppModel)
    requires
        !s.input_active,
        s.db_open,
        s.selected_result < s.search_results.len(),
    ensures
        ({
            let n = s.search_results.len();
            let (below, asked) = s.search_key(Key::Down, app);
            let (above, other) = s.search_key(Key::Up, app);
            &&& below.selected_result == if s.selected_result + 1 < n {
                s.selected_result + 1
            } else {
                0
            }
            &&& above.selected_result == if s.selected_result > 0 {
                s.selected_result - 1
            } else {
                n - 1
            }
            &&& below.search_results == s.search_results
            &&& above.search_results == s.search_results
            &&& asked == seq![
                EffectModel::LoadDetails {
                    chunk_id: s.search_results[below.selected_result as int].chunk_id,
                },
            ]
            &&& other == seq![
                EffectModel::LoadDetails {
                    chunk_id: s.search_results[above.selected_result as int].chunk_id,
                },
            ]
            &&& below.selected_analysis is None && below.selected_speaker is None
            &&& s.search_key(Key::Char('j'), app) == s.search_key(Key::Down, app)
            &&& s.search_key(Key::Char('k'), app) == s.search_key(Key::Up, app)
        }),
        s.search_results[s.selected_result as int].video_path matches Some(p) ==> s.search_key(
            Key::Enter,
            app,
        ) == (s, seq![EffectModel::PlayFile(p)]),
        s.search_results[s.selected_result as int].video_path is None ==> s.search_key(
            Key::Enter,
            app,
        ) == (s, Seq::<EffectModel>::empty()),
        s.search_key(Key::Char('/'), app).0 == (CrunchrModel { input_active: true, ..s }),
        s.search_key(Key::Char('c'), app).0 == s.open_config(app),
{
    picker::law_rows(s.selected_result, s.search_results.len());
}

/// A query is searched for literally: the database is handed one quoted phrase that stands for
/// exactly what was typed.
pub proof fn law_query_is_literal(s: CrunchrModel)
    requires
        s.db_open,
        s.search_query.len() > 0,
    ensures
        s.execute_search().1.len() == 1,
        s.execute_search().1[0] matches EffectModel::Search { query, limit } && db::read_phrase(
            query,
            1,
        ) == Some((s.search_query, query.len() as int)) && limit == 50,
{
    db::law_phrase_is_literal(s.search_query);
}

// ---------------------------------------------------------------------------
// The settings
// ---------------------------------------------------------------------------

/// The settings in force: what the draft is made of and what saving changes.
pub open spec fn in_force(s: CrunchrModel) -> (
    bool,
    bool,
    Seq<Seq<char>>,
    Seq<Seq<char>>,
    Option<AnalysisConfigModel>,
) {
    (s.enabled, s.configured, s.tandem_channels, s.tandem_playlists, s.analysis_config)
}

/// Nothing in the settings takes effect before Save is pressed: a key that changes what is in
/// force is Enter or space on Save.
pub proof fn law_only_save_applies(s: CrunchrModel, key: Key)
    requires
        s.wf(),
    ensures
        in_force(s.modal_key(key).0) != in_force(s) ==> {
            &&& key is Enter || key == Key::Char(' ')
            &&& s.config_modal matches ConfigModalState::Active {
                selected_field,
                editing,
                static_field_count,
            } && selected_field == s.save_field() && !editing
        },
{
}

/// Save puts the draft in force, closes the settings and hands the host the draft, marked as
/// configured.
pub proof fn law_save(s: CrunchrModel, d: CrunchrConfigModel)
    requires
        s.config_draft == Some(d),
    ensures
        ({
            let (after, effects) = s.press(s.save_field());
            &&& after.enabled == d.enabled
            &&& after.configured
            &&& after.tandem_channels == d.tandem_channels
            &&& after.tandem_playlists == d.tandem_playlists
            &&& after.analysis_config == if d.analysis.enabled {
                Some(d.analysis)
            } else {
                None
            }
            &&& after.config_modal is Hidden
            &&& effects == seq![
                EffectModel::UpdateConfig(CrunchrConfigModel { configured: true, ..d }),
            ]
        }),
{
}

/// Opening the settings and leaving them with Esc changes nothing but the list of channels.
pub proof fn law_open_escape(s: CrunchrModel, app: AppModel)
    requires
        s.config_modal is Hidden,
        s.config_draft is None,
    ensures
        s.open_config(app).modal_key(Key::Esc) == (
            CrunchrModel { cached_channels: host::checklist_of(app.channels), ..s },
            Seq::<EffectModel>::empty(),
        ),
{
}

/// The plugin after keys that went to the settings.
pub open spec fn after_keys(s: CrunchrModel, keys: Seq<Key>) -> CrunchrModel
    decreases keys.len(),
{
    if keys.len() == 0 {
        s
    } else {
        after_keys(s, keys.drop_last()).modal_key(keys.last()).0
    }
}

/// While the settings stay open, no key puts anything in force.
proof fn lemma_open_keeps(s: CrunchrModel, keys: Seq<Key>)
    requires
        !(after_keys(s, keys).config_modal is Hidden),
    ensures
        in_force(after_keys(s, keys)) == in_force(s),
    decreases keys.len(),
{
    if keys.len() > 0 {
        lemma_open_keeps(s, keys.drop_last());
    }
}

/// Esc discards every edit: whatever was typed and pressed since the settings were opened, as long
/// as they are still open and no field is edited, it closes them, drops the draft, hands the host
/// nothing, and leaves in force what was in force.
pub proof fn law_escape_discards(s: CrunchrModel, app: AppModel, keys: Seq<Key>)
    requires
        after_keys(s.open_config(app), keys).config_modal matches ConfigModalState::Active {
            selected_field,
            editing,
            static_field_count,
        } && !editing,
    ensures
        ({
            let edited = after_keys(s.open_config(app), keys);
            let (after, effects) = edited.modal_key(Key::Esc);
            &&& effects == Seq::<EffectModel>::empty()
            &&& after == (CrunchrModel {
                config_modal: ConfigModalState::Hidden,
                config_draft: None,
                ..edited
            })
            &&& in_force(after) == in_force(s)
        }),
{
    lemma_open_keeps(s.open_config(app), keys);
}

/// Pressing Enter on a channel that is not listed appends it and enables the plugin; pressing it
/// again takes the channel off and leaves the plugin enabled. Both change the draft alone.
pub proof fn law_channel_twice(s: CrunchrModel, d: CrunchrConfigModel, i: int)
    requires
        0 <= i < s.cached_channels.len(),
        s.config_modal matches ConfigModalState::Active {
            selected_field,
            editing,
            static_field_count,
        } && selected_field == 6 + i && !editing,
        s.config_draft == Some(d),
        !d.tandem_channels.contains(s.cached_channels[i].0),
    ensures
        ({
            let (s1, first) = s.modal_key(Key::Enter);
            let (s2, second) = s1.modal_key(Key::Enter);
            let added = d.tandem_channels.push(s.cached_channels[i].0);
            &&& first == Seq::<EffectModel>::empty()
            &&& second == Seq::<EffectModel>::empty()
            &&& s1 == (CrunchrModel {
                config_draft: Some(
                    CrunchrConfigModel { tandem_channels: added, enabled: true, ..d },
                ),
                ..s
            })
            &&& s2 == (CrunchrModel {
                config_draft: Some(CrunchrConfigModel { enabled: true, ..d }),
                ..s
            })
        }),
{
    let key = s.cached_channels[i].0;
    config::law_flip_twice(d.tandem_channels, key);
    assert(d.tandem_channels.push(key).last() == key);
    assert(d.tandem_channels.push(key).contains(key));
}

/// Until the plugin is configured, every key goes to the settings: no view changes, no search
/// starts, nothing is taken in.
pub proof fn law_first_run(s: CrunchrModel, key: Key, app: AppModel, picked: Seq<u128>)
    requires
        !s.configured,
    ensures
        ({
            let (after, effects) = s.on_key(key, app, picked);
            &&& after.view == s.view
            &&& after.queue == s.queue
            &&& after.in_flight == s.in_flight
            &&& after.search_query == s.search_query
            &&& after.search_results == s.search_results
            &&& effects.len() == 0 || effects.len() == 1 && effects[0] is UpdateConfig
        }),
{
}

/// The backends of the settings form a cycle of three.
pub proof fn law_backend_cycle()
    ensures
        CrunchrModel::next_backend("whisper-cli"@) == "voxtral-api"@,
        CrunchrModel::next_backend("voxtral-api"@) == "voxtral-local"@,
        CrunchrModel::next_backend("voxtral-local"@) == "whisper-cli"@,
{
    reveal_strlit("whisper-cli");
    reveal_strlit("voxtral-api");
    reveal_strlit("voxtral-local");
    assert("voxtral-api"@[8] == 'a');
    assert("voxtral-local"@[8] == 'l');
    assert("whisper-cli"@[0] == 'w');
    assert("voxtral-api"@[0] == 'v');
    assert("voxtral-local"@[0] == 'v');
}

/// Whether a recording is in the pipeline.
pub open spec fn busy(s: CrunchrModel, id: u128) -> bool {
    s.in_flight.contains(id) || s.queued(id)
}

/// Recordings handed over from the picker bring the queue into view exactly if the host knows one
/// of them that was not in the pipeline yet; otherwise nothing changes.
pub proof fn law_picker_shows_queue(s: CrunchrModel, ids: Seq<u128>, all: Seq<RecordingModel>)
    ensures
        ({
            let (after, effects) = s.process(ids, all);
            if exists|i: int|
                0 <= i < ids.len() && host::recording_with(all, #[trigger] ids[i]) is Some && !busy(
                    s,
                    ids[i],
                ) {
                after.view is Queue && effects.len() > 0
            } else {
                after == s && effects.len() == 0
            }
        }),
{
    lemma_take_in(s, ids, all);
}

proof fn lemma_take_in(s: CrunchrModel, ids: Seq<u128>, all: Seq<RecordingModel>)
    ensures
        s.take_in(ids, all).1.len() == 0 <==> forall|i: int|
            0 <= i < ids.len() && host::recording_with(all, #[trigger] ids[i]) is Some ==> busy(
                s,
                ids[i],
            ),
        s.take_in(ids, all).1.len() == 0 ==> s.take_in(ids, all).0 == s,
    decreases ids.len(),
{
    if ids.len() > 0 {
        let t = ids.drop_last();
        lemma_take_in(s, t, all);
        let (before, effects) = s.take_in(t, all);
        assert forall|i: int| 0 <= i < t.len() implies #[trigger] ids[i] == t[i] by {}
        assert(ids[ids.len() - 1] == ids.last());
        match host::recording_with(all, ids.last()) {
            Some(r) => {
                if !busy(before, ids.last()) {
                    lemma_taken_in_acts(
                        before,
                        ids.last(),
                        r.channel_name,
                        host::title_of(r),
                        r.output_path,
                    );
                }
            },
            None => {},
        }
        if effects.len() > 0 {
            let i = choose|i: int|
                0 <= i < t.len() && host::recording_with(all, #[trigger] t[i]) is Some && !busy(
                    s,
                    t[i],
                );
            assert(ids[i] == t[i]);
        } else {
            assert forall|i: int|
                0 <= i < ids.len() && host::recording_with(all, #[trigger] ids[i]) is Some && (i
                    < ids.len() - 1 || busy(s, ids.last())) implies busy(s, ids[i]) by {
                if i < t.len() {
                    assert(t[i] == ids[i]);
                }
            }
        }
    }
}

/// A recording that is not in the pipeline is taken in with an effect.
proof fn lemma_taken_in_acts(
    s: CrunchrModel,
    id: u128,
    channel_name: Seq<char>,
    title: Seq<char>,
    video_path: Seq<char>,
)
    requires
        !busy(s, id),
    ensures
        s.queue_recording(id, channel_name, title, video_path).1.len() > 0,
{
    model::lemma_job_at(s.queue, id);
    let job = JobModel {
        recording_id: id,
        channel_name,
        title,
        video_path,
        audio_path: None,
        state: PipelineState::Pending,
        error: None,
    };
    let q = s.queue.push(job);
    assert forall|j: int| 0 <= j < s.queue.len() implies (#[trigger] q[j]).recording_id != id by {
        assert(s.queue[j].recording_id != id);
    }
    model::lemma_job_at_is(q, id, s.queue.len() as int);
}

/// The settings open on what is in force, at the first field, and list the host's channels. Saved
/// at once, they leave in force what was in force, and the plugin is configured.
pub proof fn law_settings_opened(s: CrunchrModel, app: AppModel)
    ensures
        ({
            let t = s.open_config(app);
            &&& t.config_draft matches Some(d) && {
                &&& d.enabled == s.enabled
                &&& d.tandem_channels == s.tandem_channels
                &&& d.tandem_playlists == s.tandem_playlists
                &&& s.analysis_config matches Some(a) ==> d.analysis == a
                &&& s.analysis_config is None ==> d.analysis == app.analysis_defaults
                &&& s.backend matches Some(b) ==> d.backend == b.name()
                &&& s.backend is None ==> d.backend == "whisper-cli"@
                &&& d.api_key_env is None && d.endpoint is None && d.whisper_model is None
                &&& d.whisper_timeout_secs == 7200
            }
            &&& t.config_modal matches ConfigModalState::Active {
                selected_field,
                editing,
                static_field_count,
            } && selected_field == 0 && !editing
            &&& t.cached_channels.len() == app.channels.len()
            &&& in_force(t) == in_force(s)
            &&& ({
                let u = t.press(t.save_field()).0;
                &&& u.enabled == s.enabled
                &&& u.configured
                &&& u.tandem_channels == s.tandem_channels
                &&& u.tandem_playlists == s.tandem_playlists
            })
        }),
{
}

/// What is typed into a field is appended to that field, and Backspace takes it off again: no other
/// field changes. A field that was not set is set by typing, and is then empty again, but set.
pub proof fn law_typed(s: CrunchrModel, d: CrunchrConfigModel, field: nat, c: char)
    requires
        s.config_draft == Some(d),
        2 <= field <= 4,
    ensures
        ({
            let t = s.edit_key(field, Key::Char(c));
            let now = |was: Option<Seq<char>>|
                match was {
                    Some(x) => Some(x.push(c)),
                    None => Some(seq![c]),
                };
            &&& t.config_draft == Some(
                CrunchrConfigModel {
                    api_key_env: if field == 2 {
                        now(d.api_key_env)
                    } else {
                        d.api_key_env
                    },
                    endpoint: if field == 3 {
                        now(d.endpoint)
                    } else {
                        d.endpoint
                    },
                    whisper_model: if field == 4 {
                        now(d.whisper_model)
                    } else {
                        d.whisper_model
                    },
                    ..d
                },
            )
            &&& (field == 2 ==> d.api_key_env is Some) && (field == 3 ==> d.endpoint is Some) && (
            field == 4 ==> d.whisper_model is Some) ==> t.edit_key(field, Key::Backspace) == s
        }),
{
    let t = s.edit_key(field, Key::Char(c)).edit_key(field, Key::Backspace);
    let b = t.config_draft->0;
    if d.api_key_env is Some {
        assert(d.api_key_env->0.push(c).drop_last() == d.api_key_env->0);
    } else {
        assert(Seq::<char>::empty().push(c) == seq![c]);
    }
    if d.endpoint is Some {
        assert(d.endpoint->0.push(c).drop_last() == d.endpoint->0);
    } else {
        assert(Seq::<char>::empty().push(c) == seq![c]);
    }
    if d.whisper_model is Some {
        assert(d.whisper_model->0.push(c).drop_last() == d.whisper_model->0);
    } else {
        assert(Seq::<char>::empty().push(c) == seq![c]);
    }
}

/// In the settings, going down and up again leads back, and no key leads past the Save button.
pub proof fn law_settings_moved(s: CrunchrModel, field: usize)
    requires
        s.wf(),
        s.config_modal == (ConfigModalState::Active {
            selected_field: field,
            editing: false,
            static_field_count: 6,
        }),
    ensures
        field < s.save_field() ==> {
            &&& s.modal_key(Key::Down).0 == s.at_field((field + 1) as nat, false)
            &&& s.modal_key(Key::Down).0.modal_key(Key::Up).0 == s
        },
        field == s.save_field() ==> s.modal_key(Key::Down).0 == s,
        field == 0 ==> s.modal_key(Key::Up).0 == s,
        field > 0 ==> s.modal_key(Key::Up).0.modal_key(Key::Down).0 == s,
        s.modal_key(Key::Char('j')) == s.modal_key(Key::Down),
        s.modal_key(Key::Char('k')) == s.modal_key(Key::Up),
        s.modal_key(Key::Char(' ')) == s.modal_key(Key::Enter),
{
}

/// Pressing the first field flips whether the plugin is enabled, and the sixth whether it analyzes,
/// in the draft alone; pressing either twice changes nothing. The text fields are edited once
/// pressed, and Enter or Esc ends the edit.
pub proof fn law_fields_pressed(s: CrunchrModel, d: CrunchrConfigModel, field: nat)
    requires
        s.config_draft == Some(d),
        field < 6,
    ensures
        s.press(0).0 == (CrunchrModel {
            config_draft: Some(CrunchrConfigModel { enabled: !d.enabled, ..d }),
            ..s
        }),
        s.press(0).0.press(0).0 == s,
        s.press(5).0.config_draft == Some(
            CrunchrConfigModel {
                analysis: AnalysisConfigModel { enabled: !d.analysis.enabled, ..d.analysis },
                ..d
            },
        ),
        s.press(5).0.press(5).0 == s,
        2 <= field <= 4 ==> {
            &&& s.press(field).0 == s.at_field(field, true)
            &&& s.edit_key(field, Key::Enter) == s.at_field(field, false)
            &&& s.edit_key(field, Key::Esc) == s.at_field(field, false)
        },
        s.press(field).1.len() == 0,
{
}

/// A plugin that has just been made does nothing: nothing is queued or in flight, it has no database
/// and no backend, it is neither enabled nor configured, and no recording that ends is taken in.
pub proof fn law_fresh(id: u128, finished: bool, app: AppModel)
    ensures
        ({
            let s = model::fresh();
            &&& s.queue.len() == 0
            &&& forall|other: u128| !s.in_flight.contains(other)
            &&& !s.db_open && s.backend is None && !s.backend_available
            &&& !s.enabled && !s.configured
            &&& s.search_query.len() == 0 && s.search_results.len() == 0
            &&& s.last_error is None
            &&& s.view is Search
            &&& orderly(s)
            &&& s.recording_finished(id, finished, app) == (s, Seq::<EffectModel>::empty())
        }),
{
}

/// Esc leads back: from the search to the host, from the queue and the picker to the search, where
/// the picker selects nothing any more. All other keys in the queue but Tab change nothing, and those
/// in the picker but Tab and Enter move in the list as it is now.
pub proof fn law_escape(s: CrunchrModel, app: AppModel, picked: Seq<u128>, key: Key)
    requires
        s.configured,
        s.config_modal is Hidden,
    ensures
        s.view is Search && !s.input_active ==> s.on_key(Key::Esc, app, picked) == (
            s,
            seq![EffectModel::NavigateBack],
        ),
        s.view is Queue ==> {
            let (after, effects) = s.on_key(Key::Esc, app, picked);
            &&& after.view is Search
            &&& after == (CrunchrModel { view: after.view, ..s })
            &&& effects.len() == 0
            &&& !(key is Esc) && !(key is Tab) ==> s.on_key(key, app, picked) == (
                s,
                Seq::<EffectModel>::empty(),
            )
        },
        s.view is RecordingPicker ==> {
            let (after, effects) = s.on_key(Key::Esc, app, picked);
            let listed = s.picker.refreshed(app.recordings, s.in_flight);
            &&& after.view is Search
            &&& after.picker == listed.cleared()
            &&& after.queue == s.queue && after.in_flight == s.in_flight
            &&& effects.len() == 0
            &&& !(key is Esc) && !(key is Tab) && !(key is Enter) ==> s.on_key(key, app, picked)
                == (
                CrunchrModel { picker: listed.moved(key, app.recordings, s.in_flight), ..s },
                Seq::<EffectModel>::empty(),
            )
        },
{
}

/// Pressing Enter on a channel that is listed takes it off the draft, every time it is listed, and
/// keeps the other channels; nothing else changes.
pub proof fn law_channel_off(s: CrunchrModel, d: CrunchrConfigModel, i: int, other: Seq<char>)
    requires
        0 <= i < s.cached_channels.len(),
        s.config_modal matches ConfigModalState::Active {
            selected_field,
            editing,
            static_field_count,
        } && selected_field == 6 + i && !editing,
        s.config_draft == Some(d),
        d.tandem_channels.contains(s.cached_channels[i].0),
    ensures
        ({
            let (t, effects) = s.modal_key(Key::Enter);
            let now = t.config_draft->0.tandem_channels;
            &&& effects.len() == 0
            &&& t == (CrunchrModel {
                config_draft: Some(CrunchrConfigModel { tandem_channels: now, ..d }),
                ..s
            })
            &&& !now.contains(s.cached_channels[i].0)
            &&& other != s.cached_channels[i].0 ==> (now.contains(other)
                <==> d.tandem_channels.contains(other))
        }),
{
    config::law_flip(d.tandem_channels, s.cached_channels[i].0, other);
}

/// What is read for the hit in focus is what is shown of it, and the words that are read are those
/// that are shown; nothing else changes. A new focus shows nothing of the old one. Of a recording
/// nothing is known while there is no database.
pub proof fn law_read_is_shown(
    s: CrunchrModel,
    analysis: Option<AnalysisModel>,
    speaker: Option<Seq<char>>,
    words: Seq<(Seq<char>, i64)>,
    rows: RowsModel,
)
    ensures
        ({
            let t = s.with_details(analysis, speaker);
            &&& t.selected_analysis == analysis
            &&& t.selected_speaker == speaker
            &&& t == (CrunchrModel {
                selected_analysis: t.selected_analysis,
                selected_speaker: t.selected_speaker,
                ..s
            })
            &&& t.refresh_selected().0.selected_analysis is None
            &&& t.refresh_selected().0.selected_speaker is None
        }),
        s.with_words(words).word_frequencies == words,
        s.with_words(words).with_words(s.word_frequencies) == s,
        s.db_open ==> s.info(rows) == model::info_from(rows),
        !s.db_open ==> s.info(rows) is None,
{
}

} // verus!
