//! What the archiver passes around: jobs, events and effects.
use vstd::prelude::*;

use crate::config::{ArchiverConfig, ArchiverConfigModel};
use crate::host::{JoinedPath, PathModel, Platform, PlatformModel};
use crate::number::Double;

pub use crate::config::ConfigModalState;
pub use crate::picker::{PickerState, RecordingFilter};

verus! {

/// How far the archiving of a channel has come.
#[derive(Debug, Clone, Copy, PartialEq, Eq, Structural)]
pub enum ArchiveState {
    Pending,
    Scanning,
    Downloading,
    Paused,
    Complete,
    Failed,
}

impl ArchiveState {
    /// Whether something is being done.
    pub open spec fn active(self) -> bool {
        self is Downloading || self is Scanning
    }

    /// Whether something is being done.
    pub fn is_active(self) -> (r: bool)
        ensures
            r == self.active(),
    {
        matches!(self, ArchiveState::Downloading) || matches!(self, ArchiveState::Scanning)
    }
}

/// The views of the plugin's pane.
#[derive(Debug, Clone, Copy, PartialEq, Eq, Structural)]
pub enum ArchiverView {
    ChannelList,
    ArchiveQueue,
    RecordingPicker,
}

/// A channel on its way into the archive.
#[derive(Debug)]
pub struct ArchiveJob {
    pub id: u128,
    pub channel_name: String,
    pub channel_url: String,
    pub platform: Platform,
    pub archive_dir: JoinedPath,
    pub state: ArchiveState,
    pub total_videos: usize,
    pub completed_videos: usize,
    pub current_video: Option<String>,
    pub error: Option<String>,
}

#[verifier::ext_equal]
pub struct JobModel {
    pub id: u128,
    pub channel_name: Seq<char>,
    pub channel_url: Seq<char>,
    pub platform: PlatformModel,
    pub archive_dir: PathModel,
    pub state: ArchiveState,
    pub total_videos: nat,
    pub completed_videos: nat,
    pub current_video: Option<Seq<char>>,
    pub error: Option<Seq<char>>,
}

impl DeepView for ArchiveJob {
    type V = JobModel;

    open spec fn deep_view(&self) -> JobModel {
        JobModel {
            id: self.id,
            channel_name: self.channel_name@,
            channel_url: self.channel_url@,
            platform: self.platform.deep_view(),
            archive_dir: self.archive_dir.deep_view(),
            state: self.state,
            total_videos: self.total_videos as nat,
            completed_videos: self.completed_videos as nat,
            current_video: self.current_video.deep_view(),
            error: self.error.deep_view(),
        }
    }
}

/// A video of a channel.
#[derive(Debug)]
pub struct VideoEntry {
    pub video_id: String,
    pub title: String,
    pub upload_date: String,
    pub duration_secs: Option<Double>,
    pub playlist: Option<String>,
    pub downloaded: bool,
}

#[verifier::ext_equal]
pub struct VideoModel {
    pub video_id: Seq<char>,
    pub title: Seq<char>,
    pub upload_date: Seq<char>,
    pub duration_secs: Option<Double>,
    pub playlist: Option<Seq<char>>,
    pub downloaded: bool,
}

impl DeepView for VideoEntry {
    type V = VideoModel;

    open spec fn deep_view(&self) -> VideoModel {
        VideoModel {
            video_id: self.video_id@,
            title: self.title@,
            upload_date: self.upload_date@,
            duration_secs: self.duration_secs,
            playlist: self.playlist.deep_view(),
            downloaded: self.downloaded,
        }
    }
}

/// A stored video that has not been downloaded.
#[derive(Debug)]
pub struct PendingVideo {
    pub video_id: String,
    pub title: String,
    pub playlist: Option<String>,
}

#[verifier::ext_equal]
pub struct PendingModel {
    pub video_id: Seq<char>,
    pub title: Seq<char>,
    pub playlist: Option<Seq<char>>,
}

impl DeepView for PendingVideo {
    type V = PendingModel;

    open spec fn deep_view(&self) -> PendingModel {
        PendingModel {
            video_id: self.video_id@,
            title: self.title@,
            playlist: self.playlist.deep_view(),
        }
    }
}

/// What a scan or a download reports.
#[derive(Debug)]
pub enum ArchiverEvent {
    ScanComplete { job_id: u128, videos: Vec<VideoEntry> },
    VideoDownloaded { job_id: u128, video_id: String },
    JobComplete { job_id: u128 },
    JobError { job_id: u128, error: String },
}

#[verifier::ext_equal]
pub enum EventModel {
    ScanComplete { job_id: u128, videos: Seq<VideoModel> },
    VideoDownloaded { job_id: u128, video_id: Seq<char> },
    JobComplete { job_id: u128 },
    JobError { job_id: u128, error: Seq<char> },
}

impl DeepView for ArchiverEvent {
    type V = EventModel;

    open spec fn deep_view(&self) -> EventModel {
        match self {
            ArchiverEvent::ScanComplete { job_id, videos } => EventModel::ScanComplete {
                job_id: *job_id,
                videos: videos.deep_view(),
            },
            ArchiverEvent::VideoDownloaded { job_id, video_id } => EventModel::VideoDownloaded {
                job_id: *job_id,
                video_id: video_id@,
            },
            ArchiverEvent::JobComplete { job_id } => EventModel::JobComplete { job_id: *job_id },
            ArchiverEvent::JobError { job_id, error } => EventModel::JobError {
                job_id: *job_id,
                error: error@,
            },
        }
    }
}

/// What the plugin asks the host to do, in order. One that loads something hands the result back
/// to the plugin.
#[derive(Debug)]
pub enum Effect {
    SetStatus(String),
    NavigateBack,
    UpdateConfig(ArchiverConfig),
    /// Scan a channel; [`ArchiverEvent::ScanComplete`] or an error follows.
    Scan { job_id: u128, url: String, archive_txt: JoinedPath },
    /// Store a channel and its videos.
    StoreScan {
        name: String,
        url: String,
        platform: String,
        archive_dir: String,
        videos: Vec<VideoEntry>,
    },
    /// Note that a video of the channel at `url` has been downloaded.
    MarkDownloaded { url: String, video_id: String },
    /// Load the videos of the channel at `url` that have not been downloaded; `pending_loaded`
    /// takes them.
    LoadPending { job_id: u128, url: String },
    /// Download a video; [`ArchiverEvent::VideoDownloaded`] or an error follows.
    Download {
        job_id: u128,
        video_id: String,
        url: String,
        output_dir: JoinedPath,
        archive_txt: JoinedPath,
        format: String,
        concurrent_fragments: u32,
        playlist: Option<String>,
    },
}

#[verifier::ext_equal]
pub enum EffectModel {
    SetStatus(Seq<char>),
    NavigateBack,
    UpdateConfig(ArchiverConfigModel),
    Scan { job_id: u128, url: Seq<char>, archive_txt: PathModel },
    StoreScan {
        name: Seq<char>,
        url: Seq<char>,
        platform: Seq<char>,
        archive_dir: Seq<char>,
        videos: Seq<VideoModel>,
    },
    MarkDownloaded { url: Seq<char>, video_id: Seq<char> },
    LoadPending { job_id: u128, url: Seq<char> },
    Download {
        job_id: u128,
        video_id: Seq<char>,
        url: Seq<char>,
        output_dir: PathModel,
        archive_txt: PathModel,
        format: Seq<char>,
        concurrent_fragments: u32,
        playlist: Option<Seq<char>>,
    },
}

impl DeepView for Effect {
    type V = EffectModel;

    open spec fn deep_view(&self) -> EffectModel {
        match self {
            Effect::SetStatus(s) => EffectModel::SetStatus(s@),
            Effect::NavigateBack => EffectModel::NavigateBack,
            Effect::UpdateConfig(c) => EffectModel::UpdateConfig(c.deep_view()),
            Effect::Scan { job_id, url, archive_txt } => EffectModel::Scan {
                job_id: *job_id,
                url: url@,
                archive_txt: archive_txt.deep_view(),
            },
            Effect::StoreScan { name, url, platform, archive_dir, videos } => {
                EffectModel::StoreScan {
                    name: name@,
                    url: url@,
                    platform: platform@,
                    archive_dir: archive_dir@,
                    videos: videos.deep_view(),
                }
            },
            Effect::MarkDownloaded { url, video_id } => EffectModel::MarkDownloaded {
                url: url@,
                video_id: video_id@,
            },
            Effect::LoadPending { job_id, url } => EffectModel::LoadPending {
                job_id: *job_id,
                url: url@,
            },
            Effect::Download {
                job_id,
                video_id,
                url,
                output_dir,
                archive_txt,
                format,
                concurrent_fragments,
                playlist,
            } => EffectModel::Download {
                job_id: *job_id,
                video_id: video_id@,
                url: url@,
                output_dir: output_dir.deep_view(),
                archive_txt: archive_txt.deep_view(),
                format: format@,
                concurrent_fragments: *concurrent_fragments,
                playlist: playlist.deep_view(),
            },
        }
    }
}

} // verus!
