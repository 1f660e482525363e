//! What the plugin passes around: transcript segments, jobs, events and effects.
use vstd::prelude::*;

use crate::config::{
    AnalysisConfigModel, CrunchrAnalysisConfig, CrunchrConfig, CrunchrConfigModel,
};
use crate::host::{JoinedPath, PathModel};
use crate::number::Double;

pub use crate::config::ConfigModalState;
pub use crate::picker::{PickerState, RecordingFilter};

verus! {

/// One timed piece of a transcript.
#[derive(Debug)]
pub struct Segment {
    pub index: usize,
    pub start_sec: Double,
    pub end_sec: Double,
    pub text: String,
    pub speaker: Option<String>,
    pub confidence: Option<Double>,
}

/// What a [`Segment`] says.
#[verifier::ext_equal]
pub struct SegmentModel {
    pub index: nat,
    pub start_sec: Double,
    pub end_sec: Double,
    pub text: Seq<char>,
    pub speaker: Option<Seq<char>>,
    pub confidence: Option<Double>,
}

impl DeepView for Segment {
    type V = SegmentModel;

    open spec fn deep_view(&self) -> SegmentModel {
        SegmentModel {
            index: self.index as nat,
            start_sec: self.start_sec,
            end_sec: self.end_sec,
            text: self.text@,
            speaker: self.speaker.deep_view(),
            confidence: self.confidence,
        }
    }
}

/// A chunk on its way to the database.
#[derive(Debug)]
pub struct ChunkData {
    pub text: String,
    pub start_sec: Double,
    pub end_sec: Double,
    pub token_count: usize,
}

/// What a chunk says.
#[verifier::ext_equal]
pub struct ChunkModel {
    pub text: Seq<char>,
    pub start_sec: Double,
    pub end_sec: Double,
    pub token_count: nat,
}

impl DeepView for ChunkData {
    type V = ChunkModel;

    open spec fn deep_view(&self) -> ChunkModel {
        ChunkModel {
            text: self.text@,
            start_sec: self.start_sec,
            end_sec: self.end_sec,
            token_count: self.token_count as nat,
        }
    }
}

/// How far the processing of a recording has come.
#[derive(Debug, Clone, Copy, PartialEq, Eq, Structural)]
pub enum PipelineState {
    Pending,
    ExtractingAudio,
    Transcribing,
    Chunking,
    Analyzing,
    Complete,
    Failed,
}

impl PipelineState {
    /// The name of the state.
    pub open spec fn name(self) -> Seq<char> {
        match self {
            PipelineState::Pending => "Pending"@,
            PipelineState::ExtractingAudio => "Extracting audio"@,
            PipelineState::Transcribing => "Transcribing"@,
            PipelineState::Chunking => "Chunking"@,
            PipelineState::Analyzing => "Analyzing"@,
            PipelineState::Complete => "Complete"@,
            PipelineState::Failed => "Failed"@,
        }
    }

    /// Whether processing has ended.
    pub open spec fn over(self) -> bool {
        self is Complete || self is Failed
    }

    /// How many stages lie behind the state.
    pub open spec fn rank(self) -> nat {
        match self {
            PipelineState::Pending => 0,
            PipelineState::ExtractingAudio => 1,
            PipelineState::Transcribing => 2,
            PipelineState::Chunking => 3,
            PipelineState::Analyzing => 4,
            PipelineState::Complete => 5,
            PipelineState::Failed => 5,
        }
    }

    /// The name of the state.
    pub fn label(self) -> (r: &'static str)
        ensures
            r@ == self.name(),
    {
        match self {
            PipelineState::Pending => "Pending",
            PipelineState::ExtractingAudio => "Extracting audio",
            PipelineState::Transcribing => "Transcribing",
            PipelineState::Chunking => "Chunking",
            PipelineState::Analyzing => "Analyzing",
            PipelineState::Complete => "Complete",
            PipelineState::Failed => "Failed",
        }
    }

    /// Whether processing has ended.
    pub fn is_over(self) -> (r: bool)
        ensures
            r == self.over(),
    {
        matches!(self, PipelineState::Complete) || matches!(self, PipelineState::Failed)
    }
}

/// How a search is done.
#[derive(Debug, Clone, Copy, PartialEq, Eq, Structural)]
pub enum SearchMode {
    FullText,
    Semantic,
}

impl SearchMode {
    pub open spec fn name(self) -> Seq<char> {
        match self {
            SearchMode::FullText => "FTS"@,
            SearchMode::Semantic => "Semantic"@,
        }
    }

    /// The label shown in the search bar.
    pub fn label(self) -> (r: &'static str)
        ensures
            r@ == self.name(),
    {
        match self {
            SearchMode::FullText => "FTS",
            SearchMode::Semantic => "Semantic",
        }
    }
}

/// The views of the plugin's pane.
#[derive(Debug, Clone, Copy, PartialEq, Eq, Structural)]
pub enum CrunchrView {
    Search,
    Queue,
    RecordingPicker,
}

/// A recording on its way through the pipeline.
#[derive(Debug)]
pub struct ProcessingJob {
    pub recording_id: u128,
    pub channel_name: String,
    pub title: String,
    pub video_path: String,
    pub audio_path: Option<String>,
    pub state: PipelineState,
    pub error: Option<String>,
}

#[verifier::ext_equal]
pub struct JobModel {
    pub recording_id: u128,
    pub channel_name: Seq<char>,
    pub title: Seq<char>,
    pub video_path: Seq<char>,
    pub audio_path: Option<Seq<char>>,
    pub state: PipelineState,
    pub error: Option<Seq<char>>,
}

impl DeepView for ProcessingJob {
    type V = JobModel;

    open spec fn deep_view(&self) -> JobModel {
        JobModel {
            recording_id: self.recording_id,
            channel_name: self.channel_name@,
            title: self.title@,
            video_path: self.video_path@,
            audio_path: self.audio_path.deep_view(),
            state: self.state,
            error: self.error.deep_view(),
        }
    }
}

/// A hit of a search.
#[derive(Debug)]
pub struct SearchResult {
    pub chunk_id: i64,
    pub video_title: String,
    pub channel_name: String,
    /// The text around the hit, the hit between `>>>` and `<<<`.
    pub snippet: String,
    pub start_sec: Double,
    pub score: Double,
    pub video_path: Option<String>,
}

#[verifier::ext_equal]
pub struct HitModel {
    pub chunk_id: i64,
    pub video_title: Seq<char>,
    pub channel_name: Seq<char>,
    pub snippet: Seq<char>,
    pub start_sec: Double,
    pub score: Double,
    pub video_path: Option<Seq<char>>,
}

impl DeepView for SearchResult {
    type V = HitModel;

    open spec fn deep_view(&self) -> HitModel {
        HitModel {
            chunk_id: self.chunk_id,
            video_title: self.video_title@,
            channel_name: self.channel_name@,
            snippet: self.snippet@,
            start_sec: self.start_sec,
            score: self.score,
            video_path: self.video_path.deep_view(),
        }
    }
}

/// What the analysis says of a video.
#[derive(Debug)]
pub struct AnalysisData {
    pub summary: String,
    pub topics: Vec<String>,
    pub sentiment: String,
}

#[verifier::ext_equal]
pub struct AnalysisModel {
    pub summary: Seq<char>,
    pub topics: Seq<Seq<char>>,
    pub sentiment: Seq<char>,
}

impl DeepView for AnalysisData {
    type V = AnalysisModel;

    open spec fn deep_view(&self) -> AnalysisModel {
        AnalysisModel {
            summary: self.summary@,
            topics: self.topics.deep_view(),
            sentiment: self.sentiment@,
        }
    }
}

/// What is known of a recording's transcript.
#[derive(Debug)]
pub struct CrunchrRecordingInfo {
    pub status: String,
    pub segment_count: usize,
    pub word_count: usize,
    pub has_analysis: bool,
    pub summary: Option<String>,
    pub topics: Vec<String>,
    pub sentiment: Option<String>,
}

#[verifier::ext_equal]
pub struct RecordingInfoModel {
    pub status: Seq<char>,
    pub segment_count: usize,
    pub word_count: usize,
    pub has_analysis: bool,
    pub summary: Option<Seq<char>>,
    pub topics: Seq<Seq<char>>,
    pub sentiment: Option<Seq<char>>,
}

impl DeepView for CrunchrRecordingInfo {
    type V = RecordingInfoModel;

    open spec fn deep_view(&self) -> RecordingInfoModel {
        RecordingInfoModel {
            status: self.status@,
            segment_count: self.segment_count,
            word_count: self.word_count,
            has_analysis: self.has_analysis,
            summary: self.summary.deep_view(),
            topics: self.topics.deep_view(),
            sentiment: self.sentiment.deep_view(),
        }
    }
}

/// What the database holds of a recording, each part as far as its query succeeded.
#[derive(Debug)]
pub struct RecordingRows {
    pub status: Option<String>,
    pub video_id: Option<i64>,
    pub segments: Option<i64>,
    pub words: Option<i64>,
    /// Summary, topics as stored, sentiment.
    pub analysis: Option<(String, String, String)>,
}

#[verifier::ext_equal]
pub struct RowsModel {
    pub status: Option<Seq<char>>,
    pub video_id: Option<i64>,
    pub segments: Option<i64>,
    pub words: Option<i64>,
    pub analysis: Option<(Seq<char>, Seq<char>, Seq<char>)>,
}

impl DeepView for RecordingRows {
    type V = RowsModel;

    open spec fn deep_view(&self) -> RowsModel {
        RowsModel {
            status: self.status.deep_view(),
            video_id: self.video_id,
            segments: self.segments,
            words: self.words,
            analysis: self.analysis.deep_view(),
        }
    }
}

/// What a stage of the pipeline reports.
#[derive(Debug)]
pub enum PipelineEvent {
    AudioExtracted { recording_id: u128, audio_path: String },
    TranscriptionComplete { recording_id: u128, segments: Vec<Segment>, full_text: String },
    ChunkingComplete {
        recording_id: u128,
        video_id: i64,
        chunks: Vec<ChunkData>,
        word_frequencies: Vec<(String, usize)>,
    },
    AnalysisComplete { recording_id: u128, summary: String, topics: String, sentiment: String },
    StageError { recording_id: u128, error: String },
}

#[verifier::ext_equal]
pub enum EventModel {
    AudioExtracted { recording_id: u128, audio_path: Seq<char> },
    TranscriptionComplete {
        recording_id: u128,
        segments: Seq<SegmentModel>,
        full_text: Seq<char>,
    },
    ChunkingComplete {
        recording_id: u128,
        video_id: i64,
        chunks: Seq<ChunkModel>,
        word_frequencies: Seq<(Seq<char>, usize)>,
    },
    AnalysisComplete {
        recording_id: u128,
        summary: Seq<char>,
        topics: Seq<char>,
        sentiment: Seq<char>,
    },
    StageError { recording_id: u128, error: Seq<char> },
}

impl DeepView for PipelineEvent {
    type V = EventModel;

    open spec fn deep_view(&self) -> EventModel {
        match self {
            PipelineEvent::AudioExtracted { recording_id, audio_path } => {
                EventModel::AudioExtracted {
                    recording_id: *recording_id,
                    audio_path: audio_path@,
                }
            },
            PipelineEvent::TranscriptionComplete { recording_id, segments, full_text } => {
                EventModel::TranscriptionComplete {
                    recording_id: *recording_id,
                    segments: segments.deep_view(),
                    full_text: full_text@,
                }
            },
            PipelineEvent::ChunkingComplete { recording_id, video_id, chunks, word_frequencies } => {
                EventModel::ChunkingComplete {
                    recording_id: *recording_id,
                    video_id: *video_id,
                    chunks: chunks.deep_view(),
                    word_frequencies: word_frequencies.deep_view(),
                }
            },
            PipelineEvent::AnalysisComplete { recording_id, summary, topics, sentiment } => {
                EventModel::AnalysisComplete {
                    recording_id: *recording_id,
                    summary: summary@,
                    topics: topics@,
                    sentiment: sentiment@,
                }
            },
            PipelineEvent::StageError { recording_id, error } => EventModel::StageError {
                recording_id: *recording_id,
                error: error@,
            },
        }
    }
}

/// What the plugin asks the host to do, in order. Those that load something hand the result back
/// to the plugin.
#[derive(Debug)]
pub enum Effect {
    SetStatus(String),
    PlayFile(String),
    NavigateBack,
    UpdateConfig(CrunchrConfig),
    /// Extract the audio; [`PipelineEvent::AudioExtracted`] or an error follows.
    ExtractAudio { recording_id: u128, video_path: String, output_dir: JoinedPath },
    /// Transcribe; [`PipelineEvent::TranscriptionComplete`] or an error follows.
    Transcribe { recording_id: u128, audio_path: String },
    /// Chunk; [`PipelineEvent::ChunkingComplete`] or an error follows.
    ChunkSegments { recording_id: u128, video_id: i64, segments: Vec<Segment> },
    /// Analyze the stored transcript; [`PipelineEvent::AnalysisComplete`] follows.
    Analyze {
        recording_id: u128,
        key: String,
        channel_name: String,
        title: String,
        config: CrunchrAnalysisConfig,
    },
    /// Store a video; `video_inserted` takes the outcome.
    InsertVideo {
        recording_id: u128,
        key: String,
        channel_name: String,
        title: String,
        video_path: String,
    },
    UpdateStatus { key: String, status: String, error: Option<String> },
    UpdateAudioPath { key: String, audio_path: String },
    StoreTranscript { key: String, transcript: String, segments: Vec<Segment> },
    RemoveFile(String),
    /// Load the stored segments; `segments_loaded` takes them.
    LoadSegments { recording_id: u128, key: String },
    StoreChunks {
        video_id: i64,
        chunks: Vec<ChunkData>,
        word_frequencies: Vec<(String, usize)>,
    },
    StoreAnalysis { key: String, summary: String, topics: String, sentiment: String },
    /// Load the most frequent words; `word_frequencies_loaded` takes them.
    LoadTopWords { limit: usize },
    /// Search; `search_finished` takes the hits.
    Search { query: String, limit: usize },
    /// Load what is known of a chunk; `details_loaded` takes it.
    LoadDetails { chunk_id: i64 },
}

#[verifier::ext_equal]
pub enum EffectModel {
    SetStatus(Seq<char>),
    PlayFile(Seq<char>),
    NavigateBack,
    UpdateConfig(CrunchrConfigModel),
    ExtractAudio { recording_id: u128, video_path: Seq<char>, output_dir: PathModel },
    Transcribe { recording_id: u128, audio_path: Seq<char> },
    ChunkSegments { recording_id: u128, video_id: i64, segments: Seq<SegmentModel> },
    Analyze {
        recording_id: u128,
        key: Seq<char>,
        channel_name: Seq<char>,
        title: Seq<char>,
        config: AnalysisConfigModel,
    },
    InsertVideo {
        recording_id: u128,
        key: Seq<char>,
        channel_name: Seq<char>,
        title: Seq<char>,
        video_path: Seq<char>,
    },
    UpdateStatus { key: Seq<char>, status: Seq<char>, error: Option<Seq<char>> },
    UpdateAudioPath { key: Seq<char>, audio_path: Seq<char> },
    StoreTranscript { key: Seq<char>, transcript: Seq<char>, segments: Seq<SegmentModel> },
    RemoveFile(Seq<char>),
    LoadSegments { recording_id: u128, key: Seq<char> },
    StoreChunks {
        video_id: i64,
        chunks: Seq<ChunkModel>,
        word_frequencies: Seq<(Seq<char>, usize)>,
    },
    StoreAnalysis {
        key: Seq<char>,
        summary: Seq<char>,
        topics: Seq<char>,
        sentiment: Seq<char>,
    },
    LoadTopWords { limit: usize },
    Search { query: Seq<char>, limit: usize },
    LoadDetails { chunk_id: i64 },
}

impl DeepView for Effect {
    type V = EffectModel;

    open spec fn deep_view(&self) -> EffectModel {
        match self {
            Effect::SetStatus(s) => EffectModel::SetStatus(s@),
            Effect::PlayFile(p) => EffectModel::PlayFile(p@),
            Effect::NavigateBack => EffectModel::NavigateBack,
            Effect::UpdateConfig(c) => EffectModel::UpdateConfig(c.deep_view()),
            Effect::ExtractAudio { recording_id, video_path, output_dir } => {
                EffectModel::ExtractAudio {
                    recording_id: *recording_id,
                    video_path: video_path@,
                    output_dir: output_dir.deep_view(),
                }
            },
            Effect::Transcribe { recording_id, audio_path } => EffectModel::Transcribe {
                recording_id: *recording_id,
                audio_path: audio_path@,
            },
            Effect::ChunkSegments { recording_id, video_id, segments } => {
                EffectModel::ChunkSegments {
                    recording_id: *recording_id,
                    video_id: *video_id,
                    segments: segments.deep_view(),
                }
            },
            Effect::Analyze { recording_id, key, channel_name, title, config } => {
                EffectModel::Analyze {
                    recording_id: *recording_id,
                    key: key@,
                    channel_name: channel_name@,
                    title: title@,
                    config: config.deep_view(),
                }
            },
            Effect::InsertVideo { recording_id, key, channel_name, title, video_path } => {
                EffectModel::InsertVideo {
                    recording_id: *recording_id,
                    key: key@,
                    channel_name: channel_name@,
                    title: title@,
                    video_path: video_path@,
                }
            },
            Effect::UpdateStatus { key, status, error } => EffectModel::UpdateStatus {
                key: key@,
                status: status@,
                error: error.deep_view(),
            },
            Effect::UpdateAudioPath { key, audio_path } => EffectModel::UpdateAudioPath {
                key: key@,
                audio_path: audio_path@,
            },
            Effect::StoreTranscript { key, transcript, segments } => {
                EffectModel::StoreTranscript {
                    key: key@,
                    transcript: transcript@,
                    segments: segments.deep_view(),
                }
            },
            Effect::RemoveFile(p) => EffectModel::RemoveFile(p@),
            Effect::LoadSegments { recording_id, key } => EffectModel::LoadSegments {
                recording_id: *recording_id,
                key: key@,
            },
            Effect::StoreChunks { video_id, chunks, word_frequencies } => {
                EffectModel::StoreChunks {
                    video_id: *video_id,
                    chunks: chunks.deep_view(),
                    word_frequencies: word_frequencies.deep_view(),
                }
            },
            Effect::StoreAnalysis { key, summary, topics, sentiment } => {
                EffectModel::StoreAnalysis {
                    key: key@,
                    summary: summary@,
                    topics: topics@,
                    sentiment: sentiment@,
                }
            },
            Effect::LoadTopWords { limit } => EffectModel::LoadTopWords { limit: *limit },
            Effect::Search { query, limit } => EffectModel::Search {
                query: query@,
                limit: *limit,
            },
            Effect::LoadDetails { chunk_id } => EffectModel::LoadDetails { chunk_id: *chunk_id },
        }
    }
}

} // verus!
