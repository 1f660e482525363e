use std::collections::HashSet;

use strivo_plugins::archiver::types::{ArchiveState, ArchiverEvent, VideoEntry};
use strivo_plugins::archiver::ArchiverPlugin;
use strivo_plugins::config::{ArchiverConfig, CrunchrAnalysisConfig, CrunchrConfig};
use strivo_plugins::crunchr::render::highlighted_snippet;
use strivo_plugins::crunchr::transcribe::create_backend;
use strivo_plugins::crunchr::types::{CrunchrView, Effect, PipelineEvent, PipelineState};
use strivo_plugins::crunchr::CrunchrPlugin;
use strivo_plugins::host::{
    AppSnapshot, ChannelEntry, Key, Platform, PlatformKind, RecordingInfo,
};
use strivo_plugins::picker::PickerState;
use strivo_plugins::screen::Tone;

fn archiver_config() -> ArchiverConfig {
    ArchiverConfig {
        enabled: true,
        configured: true,
        archive_dir: "/arch".to_string(),
        format: "best".to_string(),
        concurrent_fragments: 4,
        rate_limit: String::new(),
        tandem_channels: vec![],
        tandem_playlists: vec![],
    }
}

fn analysis(enabled: bool) -> CrunchrAnalysisConfig {
    CrunchrAnalysisConfig { enabled, openrouter_api_key_env: None, model: String::new() }
}

fn app() -> AppSnapshot {
    AppSnapshot {
        channels: vec![],
        recordings: vec![],
        analysis_defaults: analysis(false),
        archiver_defaults: archiver_config(),
    }
}

/// A plugin with the jobs 1 and 2, both extracting audio.
fn two_jobs(with_analysis: bool) -> CrunchrPlugin {
    let config = CrunchrConfig {
        enabled: true,
        configured: true,
        backend: "voxtral".to_string(),
        api_key_env: None,
        endpoint: None,
        whisper_model: None,
        whisper_timeout_secs: 1,
        analysis: analysis(with_analysis),
        tandem_channels: vec![],
        tandem_playlists: vec![],
    };
    let mut p = CrunchrPlugin::new();
    p.init(&config, create_backend(&config, Some("k".to_string())), false);
    for id in [1, 2] {
        let say = || "x".to_string();
        p.queue_recording(id, say(), say(), say());
        p.video_inserted(id, say(), say(), say(), Ok(()));
    }
    p
}

#[test]
fn a_report_touches_one_recording() {
    let mut p = two_jobs(false);
    p.handle_pipeline_event(PipelineEvent::StageError {
        recording_id: 2,
        error: "e".to_string(),
    });
    assert_eq!(p.queue[0].state, PipelineState::ExtractingAudio);
    assert_eq!(p.queue[0].error, None);
    assert_eq!(p.queue[1].state, PipelineState::Failed);
    let effects = p.handle_pipeline_event(PipelineEvent::StageError {
        recording_id: 3,
        error: "who".to_string(),
    });
    assert_eq!(effects.len(), 2);
    assert_eq!(p.queue.len(), 2);
    assert_eq!(p.last_error.as_deref(), Some("who"));
}

#[test]
fn stages_do_not_go_back() {
    let mut p = two_jobs(false);
    let audio = || PipelineEvent::AudioExtracted { recording_id: 1, audio_path: "/a".to_string() };
    p.handle_pipeline_event(audio());
    assert_eq!(p.queue[0].state, PipelineState::Transcribing);
    p.handle_pipeline_event(PipelineEvent::TranscriptionComplete {
        recording_id: 1,
        segments: vec![],
        full_text: String::new(),
    });
    assert_eq!(p.queue[0].state, PipelineState::Chunking);
    // A second report of an earlier stage leaves the job where it is.
    let effects = p.handle_pipeline_event(audio());
    assert_eq!(p.queue[0].state, PipelineState::Chunking);
    assert!(matches!(&effects[..], [Effect::UpdateAudioPath { .. }]));
}

#[test]
fn a_failed_recording_can_be_picked_but_keeps_its_job() {
    let mut p = two_jobs(false);
    p.handle_pipeline_event(PipelineEvent::StageError {
        recording_id: 1,
        error: "e".to_string(),
    });
    let mut a = app();
    for id in [1, 2] {
        a.recordings.push(RecordingInfo {
            id,
            finished: true,
            platform: "T".to_string(),
            channel_id: "c".to_string(),
            channel_name: "C".to_string(),
            stream_title: None,
            playlist: None,
            output_path: "/o".to_string(),
        });
    }
    p.view = CrunchrView::RecordingPicker;
    p.on_key(Key::Other, &a);
    // Recording 2 is in flight, recording 1 no longer.
    assert_eq!(p.picker.visible_ids, vec![1]);
    assert!(p.on_key(Key::Enter, &a).is_empty());
    assert_eq!(p.queue.len(), 2);
    assert_eq!(p.view, CrunchrView::RecordingPicker);
}

#[test]
fn different_recordings_have_different_keys() {
    let mut p = two_jobs(false);
    let mut keys = HashSet::new();
    for shift in 0..128 {
        let say = || "x".to_string();
        let id: u128 = 3 << shift;
        let effects = p.queue_recording(id, say(), say(), say());
        if let [Effect::InsertVideo { key, .. }] = &effects[..] {
            assert_eq!(key.len(), 36);
            keys.insert(key.clone());
        }
    }
    assert_eq!(keys.len(), 128);
}

#[test]
fn settings_cycle_through_the_backends() {
    let mut p = CrunchrPlugin::new();
    p.on_key(Key::Down, &app());
    let mut seen = Vec::new();
    for _ in 0..4 {
        seen.push(p.config_draft.as_ref().unwrap().backend.clone());
        p.on_key(Key::Char(' '), &app());
    }
    assert_eq!(seen, vec!["whisper-cli", "voxtral-api", "voxtral-local", "whisper-cli"]);
}

#[test]
fn tab_leads_through_the_views_and_back() {
    let mut p = two_jobs(false);
    let mut seen = Vec::new();
    for _ in 0..3 {
        p.on_key(Key::Tab, &app());
        seen.push(p.view);
    }
    assert_eq!(
        seen,
        vec![CrunchrView::Queue, CrunchrView::RecordingPicker, CrunchrView::Search]
    );
}

#[test]
fn the_focus_of_the_picker_stays_in_the_list() {
    let all: Vec<RecordingInfo> = (0..3)
        .map(|id| RecordingInfo {
            id,
            finished: id != 1,
            platform: "T".to_string(),
            channel_id: "c".to_string(),
            channel_name: "C".to_string(),
            stream_title: None,
            playlist: None,
            output_path: String::new(),
        })
        .collect();
    let idle: HashSet<u128> = HashSet::new();
    let mut p = PickerState::new();
    p.selected = 9;
    p.refresh(&all, &idle);
    assert_eq!((p.selected, &p.visible_ids[..]), (1, &[0, 2][..]));
    p.on_key(Key::Down, &all, &idle);
    assert_eq!(p.selected, 0);
    p.on_key(Key::Up, &all, &idle);
    assert_eq!(p.selected, 1);
    p.refresh(&vec![], &idle);
    assert_eq!(p.selected, 0);
    p.on_key(Key::Down, &vec![], &idle);
    assert_eq!(p.selected, 0);
}

#[test]
fn snippets_fit() {
    for width in 0..20 {
        let spans = highlighted_snippet("ab >>>cd<<< ef >>>gh", width, Tone::Fg).unwrap();
        let bytes: usize = spans.iter().map(|s| s.text.len()).sum();
        assert!(bytes <= width);
        assert!(bytes == width.min(11), "{width}: {bytes}");
    }
}

#[test]
fn a_report_touches_one_archive_job() {
    let mut p = ArchiverPlugin::new();
    p.set_data_dir("/d".to_string());
    p.init(archiver_config());
    let channel = ChannelEntry {
        id: "i".to_string(),
        name: "n".to_string(),
        display_name: "N".to_string(),
        platform: Platform { kind: PlatformKind::YouTube, label: "YouTube".to_string() },
    };
    p.start_archive_as(&channel, 1);
    p.start_archive_as(&channel, 2);
    let video = VideoEntry {
        video_id: "v".to_string(),
        title: "t".to_string(),
        upload_date: String::new(),
        duration_secs: None,
        playlist: None,
        downloaded: false,
    };
    p.handle_archiver_event(ArchiverEvent::ScanComplete { job_id: 2, videos: vec![video] });
    assert_eq!(p.jobs[0].state, ArchiveState::Scanning);
    assert_eq!(p.jobs[1].state, ArchiveState::Downloading);
    assert_eq!(p.jobs[1].total_videos, 1);
    p.handle_archiver_event(ArchiverEvent::JobError { job_id: 1, error: "e".to_string() });
    assert_eq!(p.jobs[0].error.as_deref(), Some("e"));
    assert_eq!(p.jobs[1].error, None);
}

#[test]
fn nothing_applies_before_save() {
    let mut p = ArchiverPlugin::new();
    p.init(archiver_config());
    p.on_key(Key::Char('c'), &app());
    p.on_key(Key::Enter, &app());
    assert!(!p.config_draft.as_ref().unwrap().enabled);
    assert!(p.enabled && p.config.as_ref().unwrap().enabled);
    p.on_key(Key::Esc, &app());
    assert!(p.config_draft.is_none());
    assert!(p.enabled);
}

#[test]
fn a_channel_is_added_and_taken_off_again() {
    let mut a = app();
    a.channels.push(ChannelEntry {
        id: "i".to_string(),
        name: "n".to_string(),
        display_name: "N".to_string(),
        platform: Platform { kind: PlatformKind::Twitch, label: "Twitch".to_string() },
    });
    let mut p = CrunchrPlugin::new();
    for _ in 0..6 {
        p.on_key(Key::Down, &a);
    }
    assert!(!p.config_draft.as_ref().unwrap().enabled);
    assert!(p.on_key(Key::Enter, &a).is_empty());
    let draft = p.config_draft.as_ref().unwrap();
    assert_eq!(draft.tandem_channels, vec!["Twitch:i"]);
    assert!(draft.enabled);
    assert!(p.on_key(Key::Enter, &a).is_empty());
    let draft = p.config_draft.as_ref().unwrap();
    assert!(draft.tandem_channels.is_empty());
    assert!(draft.enabled);
    assert!(!p.enabled && p.tandem_channels.is_empty());
    // Esc discards all of it.
    assert!(p.on_key(Key::Esc, &a).is_empty());
    assert!(p.config_draft.is_none());
    assert!(!p.enabled && !p.configured && p.tandem_channels.is_empty());
}

#[test]
fn late_chunks_of_a_failed_job_are_still_analyzed() {
    let mut p = two_jobs(true);
    p.handle_pipeline_event(PipelineEvent::StageError {
        recording_id: 1,
        error: "e".to_string(),
    });
    p.handle_pipeline_event(PipelineEvent::ChunkingComplete {
        recording_id: 1,
        video_id: 1,
        chunks: vec![],
        word_frequencies: vec![],
    });
    assert_eq!(p.queue[0].state, PipelineState::Analyzing);
}
