use strivo_plugins::config::{ConfigModalState, CrunchrAnalysisConfig, CrunchrConfig};
use strivo_plugins::config::ArchiverConfig;
use strivo_plugins::crunchr::transcribe::create_backend;
use strivo_plugins::crunchr::types::{
    AnalysisData, CrunchrView, Effect, PipelineEvent, PipelineState, RecordingRows, SearchResult,
    Segment,
};
use strivo_plugins::crunchr::CrunchrPlugin;
use strivo_plugins::host::{
    AppSnapshot, ChannelEntry, Key, Platform, PlatformKind, RecordingInfo,
};
use strivo_plugins::number::Double;

const ID: u128 = 0x0123_4567_89ab_4def_8123_4567_89ab_cdef;
const ID_TEXT: &str = "01234567-89ab-4def-8123-456789abcdef";

fn analysis(enabled: bool) -> CrunchrAnalysisConfig {
    CrunchrAnalysisConfig {
        enabled,
        openrouter_api_key_env: Some("KEY".to_string()),
        model: "some/model".to_string(),
    }
}

fn config() -> CrunchrConfig {
    CrunchrConfig {
        enabled: true,
        configured: true,
        backend: "voxtral-api".to_string(),
        api_key_env: Some("VOX".to_string()),
        endpoint: None,
        whisper_model: None,
        whisper_timeout_secs: 60,
        analysis: analysis(false),
        tandem_channels: vec!["Twitch:c1".to_string()],
        tandem_playlists: vec!["Best".to_string()],
    }
}

fn recording(id: u128, channel: &str, finished: bool) -> RecordingInfo {
    RecordingInfo {
        id,
        finished,
        platform: "Twitch".to_string(),
        channel_id: channel.to_string(),
        channel_name: format!("name of {channel}"),
        stream_title: None,
        playlist: None,
        output_path: format!("/rec/{id}.mkv"),
    }
}

fn app(recordings: Vec<RecordingInfo>) -> AppSnapshot {
    AppSnapshot {
        channels: vec![ChannelEntry {
            id: "c1".to_string(),
            name: "chan".to_string(),
            display_name: "Chan".to_string(),
            platform: Platform { kind: PlatformKind::Twitch, label: "Twitch".to_string() },
        }],
        recordings,
        analysis_defaults: analysis(false),
        archiver_defaults: ArchiverConfig {
            enabled: false,
            configured: false,
            archive_dir: "/arch".to_string(),
            format: "best".to_string(),
            concurrent_fragments: 4,
            rate_limit: String::new(),
            tandem_channels: vec![],
            tandem_playlists: vec![],
        },
    }
}

fn started(with_analysis: bool) -> CrunchrPlugin {
    let mut c = config();
    c.analysis = analysis(with_analysis);
    let mut p = CrunchrPlugin::new();
    p.set_data_dir("/data".to_string());
    let backend = create_backend(&c, Some("secret".to_string()));
    let effects = p.init(&c, backend, false);
    assert!(matches!(&effects[..], [Effect::LoadTopWords { limit: 20 }]));
    assert!(p.backend_available);
    p
}

fn queue_one(p: &mut CrunchrPlugin) {
    let effects =
        p.queue_recording(ID, "Chan".to_string(), "Title".to_string(), "/v.mkv".to_string());
    match &effects[..] {
        [Effect::InsertVideo { recording_id, key, channel_name, title, video_path }] => {
            assert_eq!(*recording_id, ID);
            assert_eq!(key, ID_TEXT);
            assert_eq!(channel_name, "Chan");
            assert_eq!(title, "Title");
            assert_eq!(video_path, "/v.mkv");
        }
        other => panic!("{other:?}"),
    }
    let effects = p.video_inserted(
        ID,
        "Chan".to_string(),
        "Title".to_string(),
        "/v.mkv".to_string(),
        Ok(()),
    );
    match &effects[..] {
        [Effect::UpdateStatus { key, status, error: None }, Effect::ExtractAudio { recording_id, video_path, output_dir }] =>
        {
            assert_eq!(key, ID_TEXT);
            assert_eq!(status, "extracting_audio");
            assert_eq!(*recording_id, ID);
            assert_eq!(video_path, "/v.mkv");
            assert_eq!(output_dir.base, "/data");
            assert_eq!(output_dir.parts, vec!["audio"]);
        }
        other => panic!("{other:?}"),
    }
}

fn segment() -> Segment {
    Segment {
        index: 0,
        start_sec: Double { bits: 0 },
        end_sec: Double { bits: 1 },
        text: "hi".to_string(),
        speaker: None,
        confidence: None,
    }
}

fn to_chunking(p: &mut CrunchrPlugin) {
    queue_one(p);
    let effects = p.handle_pipeline_event(PipelineEvent::AudioExtracted {
        recording_id: ID,
        audio_path: "/a.wav".to_string(),
    });
    match &effects[..] {
        [Effect::UpdateAudioPath { audio_path, .. }, Effect::UpdateStatus { status, .. }, Effect::Transcribe { audio_path: heard, .. }] =>
        {
            assert_eq!(audio_path, "/a.wav");
            assert_eq!(status, "transcribing");
            assert_eq!(heard, "/a.wav");
        }
        other => panic!("{other:?}"),
    }
    let effects = p.handle_pipeline_event(PipelineEvent::TranscriptionComplete {
        recording_id: ID,
        segments: vec![segment()],
        full_text: "hi".to_string(),
    });
    match &effects[..] {
        [Effect::StoreTranscript { transcript, segments, .. }, Effect::RemoveFile(path), Effect::UpdateStatus { status, .. }, Effect::LoadSegments { recording_id, key }] =>
        {
            assert_eq!(transcript, "hi");
            assert_eq!(segments.len(), 1);
            assert_eq!(path, "/a.wav");
            assert_eq!(status, "chunking");
            assert_eq!(*recording_id, ID);
            assert_eq!(key, ID_TEXT);
        }
        other => panic!("{other:?}"),
    }
    assert_eq!(p.queue[0].state, PipelineState::Chunking);
    let rows = vec![(4usize, Double { bits: 2 }, Double { bits: 3 }, "row".to_string())];
    let effects = p.segments_loaded(ID, Some((11, rows)));
    match &effects[..] {
        [Effect::ChunkSegments { recording_id, video_id: 11, segments }] => {
            assert_eq!(*recording_id, ID);
            assert_eq!(segments[0].index, 4);
            assert_eq!(segments[0].text, "row");
            assert_eq!(segments[0].end_sec, Double { bits: 3 });
            assert!(segments[0].speaker.is_none());
        }
        other => panic!("{other:?}"),
    }
}

fn chunked() -> PipelineEvent {
    PipelineEvent::ChunkingComplete {
        recording_id: ID,
        video_id: 11,
        chunks: vec![],
        word_frequencies: vec![("row".to_string(), 1)],
    }
}

#[test]
fn a_recording_runs_to_completion() {
    let mut p = started(false);
    to_chunking(&mut p);
    assert_eq!(p.status_line(), Some("CR:1".to_string()));
    let effects = p.handle_pipeline_event(chunked());
    match &effects[..] {
        [Effect::StoreChunks { video_id: 11, word_frequencies, .. }, Effect::UpdateStatus { status, .. }, Effect::LoadTopWords { limit: 20 }] =>
        {
            assert_eq!(word_frequencies.len(), 1);
            assert_eq!(status, "complete");
        }
        other => panic!("{other:?}"),
    }
    assert_eq!(p.queue[0].state, PipelineState::Complete);
    assert_eq!(p.status_line(), None);
    // It has a job, so it is not taken in again.
    let again =
        p.queue_recording(ID, "Chan".to_string(), "Title".to_string(), "/v.mkv".to_string());
    assert!(again.is_empty());
}

#[test]
fn analysis_comes_before_completion() {
    let mut p = started(true);
    to_chunking(&mut p);
    let effects = p.handle_pipeline_event(chunked());
    match &effects[..] {
        [Effect::StoreChunks { .. }, Effect::UpdateStatus { status, .. }, Effect::LoadTopWords { .. }, Effect::Analyze { recording_id, key, channel_name, title, config }] =>
        {
            assert_eq!(status, "analyzing");
            assert_eq!(*recording_id, ID);
            assert_eq!(key, ID_TEXT);
            assert_eq!(channel_name, "Chan");
            assert_eq!(title, "Title");
            assert_eq!(config.model, "some/model");
        }
        other => panic!("{other:?}"),
    }
    assert_eq!(p.queue[0].state, PipelineState::Analyzing);
    let effects = p.handle_pipeline_event(PipelineEvent::AnalysisComplete {
        recording_id: ID,
        summary: "s".to_string(),
        topics: "[]".to_string(),
        sentiment: "neutral".to_string(),
    });
    match &effects[..] {
        [Effect::StoreAnalysis { summary, topics, sentiment, .. }, Effect::UpdateStatus { status, .. }, Effect::LoadTopWords { .. }] =>
        {
            assert_eq!((summary.as_str(), topics.as_str(), sentiment.as_str()), ("s", "[]", "neutral"));
            assert_eq!(status, "complete");
        }
        other => panic!("{other:?}"),
    }
    assert_eq!(p.queue[0].state, PipelineState::Complete);
}

#[test]
fn a_failed_stage_ends_the_run() {
    let mut p = started(false);
    queue_one(&mut p);
    let effects = p.handle_pipeline_event(PipelineEvent::StageError {
        recording_id: ID,
        error: "boom".to_string(),
    });
    match &effects[..] {
        [Effect::UpdateStatus { key, status, error }, Effect::SetStatus(said)] => {
            assert_eq!(key, ID_TEXT);
            assert_eq!(status, "failed");
            assert_eq!(error.as_deref(), Some("boom"));
            assert_eq!(said, "CrunchR error: boom");
        }
        other => panic!("{other:?}"),
    }
    assert_eq!(p.queue[0].state, PipelineState::Failed);
    assert_eq!(p.queue[0].error.as_deref(), Some("boom"));
    assert_eq!(p.last_error.as_deref(), Some("boom"));
    assert_eq!(p.status_line(), None);
}

#[test]
fn missing_segments_fail_the_job() {
    let mut p = started(false);
    to_chunking(&mut p);
    let effects = p.segments_loaded(ID, None);
    assert!(effects.is_empty());
    assert_eq!(p.queue[0].state, PipelineState::Failed);
    assert_eq!(p.queue[0].error.as_deref(), Some("No segments found for chunking"));
}

#[test]
fn a_refused_insert_takes_nothing_in() {
    let mut p = started(false);
    let first = p.queue_recording(ID, "C".to_string(), "T".to_string(), "/v".to_string());
    assert_eq!(first.len(), 1);
    let effects = p.video_inserted(
        ID,
        "C".to_string(),
        "T".to_string(),
        "/v".to_string(),
        Err("locked".to_string()),
    );
    assert!(matches!(&effects[..], [Effect::SetStatus(s)] if s == "CrunchR DB error: locked"));
    assert_eq!(p.last_error.as_deref(), Some("DB insert error: locked"));
    assert!(p.queue.is_empty());
    // No longer in flight: it can be tried again.
    let again = p.queue_recording(ID, "C".to_string(), "T".to_string(), "/v".to_string());
    assert_eq!(again.len(), 1);
}

#[test]
fn without_a_database_or_a_backend_the_pipeline_stops() {
    let mut p = CrunchrPlugin::new();
    let effects = p.queue_recording(ID, "C".to_string(), "T".to_string(), "/v".to_string());
    assert!(matches!(&effects[..], [Effect::ExtractAudio { .. }]));
    let effects = p.handle_pipeline_event(PipelineEvent::AudioExtracted {
        recording_id: ID,
        audio_path: "/a.wav".to_string(),
    });
    assert!(matches!(&effects[..], [Effect::SetStatus(s)] if s == "CrunchR: no transcription backend"));
    assert_eq!(p.queue[0].state, PipelineState::Failed);
    assert_eq!(p.queue[0].error.as_deref(), Some("No transcription backend available"));
}

#[test]
fn whisper_is_available_only_if_found() {
    let mut c = config();
    c.backend = "whisper-cli".to_string();
    for found in [true, false] {
        let mut p = CrunchrPlugin::new();
        p.init(&c, create_backend(&c, None), found);
        assert_eq!(p.backend_available, found);
    }
    c.backend = "voxtral-local".to_string();
    let mut p = CrunchrPlugin::new();
    p.init(&c, create_backend(&c, None), true);
    assert!(!p.backend_available);
    p.shutdown();
    assert!(p.backend().is_none());
}

#[test]
fn only_tandem_recordings_are_taken_in() {
    let mut p = started(false);
    let mut other = recording(2, "c2", true);
    let a = app(vec![recording(1, "c1", true), recording(2, "c2", true)]);
    assert!(p.recording_finished(2, true, &a).is_empty());
    assert!(p.recording_finished(1, false, &a).is_empty());
    assert!(p.recording_finished(3, true, &a).is_empty());
    match &p.recording_finished(1, true, &a)[..] {
        [Effect::InsertVideo { title, video_path, .. }] => {
            assert_eq!(title, "Untitled");
            assert_eq!(video_path, "/rec/1.mkv");
        }
        effects => panic!("{effects:?}"),
    }
    other.playlist = Some("Best".to_string());
    let b = app(vec![other]);
    assert_eq!(p.recording_finished(2, true, &b).len(), 1);
    p.enabled = false;
    let c = app(vec![recording(5, "c1", true)]);
    assert!(p.recording_finished(5, true, &c).is_empty());
}

#[test]
fn searching_shows_the_first_hit() {
    let mut p = started(false);
    let a = app(vec![]);
    assert!(p.on_key(Key::Char('/'), &a).is_empty());
    for c in "say \"hi\"!".chars() {
        assert!(p.on_key(Key::Char(c), &a).is_empty());
    }
    p.on_key(Key::Backspace, &a);
    match &p.on_key(Key::Enter, &a)[..] {
        [Effect::Search { query, limit: 50 }] => assert_eq!(query, "\"say \"\"hi\"\"\""),
        effects => panic!("{effects:?}"),
    }
    let hit = |n: i64, path: Option<&str>| SearchResult {
        chunk_id: n,
        video_title: "t".to_string(),
        channel_name: "c".to_string(),
        snippet: "s".to_string(),
        start_sec: Double { bits: 0 },
        score: Double { bits: 0 },
        video_path: path.map(|s| s.to_string()),
    };
    let effects = p.search_finished(Ok(vec![hit(7, Some("/p.mkv")), hit(8, None)]));
    assert!(matches!(&effects[..], [Effect::LoadDetails { chunk_id: 7 }]));
    p.details_loaded(
        Some(AnalysisData {
            summary: "sum".to_string(),
            topics: vec![],
            sentiment: "mixed".to_string(),
        }),
        Some("Ann".to_string()),
    );
    assert_eq!(p.selected_speaker.as_deref(), Some("Ann"));
    assert!(matches!(&p.on_key(Key::Enter, &a)[..], [Effect::PlayFile(f)] if f == "/p.mkv"));
    let effects = p.on_key(Key::Down, &a);
    assert!(matches!(&effects[..], [Effect::LoadDetails { chunk_id: 8 }]));
    assert!(p.selected_speaker.is_none());
    assert!(p.on_key(Key::Enter, &a).is_empty());
    p.on_key(Key::Char('j'), &a);
    assert_eq!(p.selected_result, 0);
    p.on_key(Key::Char('k'), &a);
    assert_eq!(p.selected_result, 1);
    let effects = p.search_finished(Err("bad".to_string()));
    assert!(effects.is_empty());
    assert_eq!(p.last_error.as_deref(), Some("Search error: bad"));
    assert!(p.search_results.is_empty());
    assert!(matches!(&p.on_key(Key::Esc, &a)[..], [Effect::NavigateBack]));
}

#[test]
fn a_search_without_a_database_says_so() {
    let mut p = started(false);
    p.shutdown();
    p.backend_available = false;
    p.input_active = true;
    let a = app(vec![]);
    p.on_key(Key::Enter, &a);
    assert_eq!(p.last_error, None);
    p.input_active = true;
    p.search_query = "x".to_string();
    assert!(p.on_key(Key::Enter, &a).is_empty());
    assert_eq!(p.last_error.as_deref(), Some("DB not available"));
}

#[test]
fn the_first_key_opens_the_settings() {
    let mut p = CrunchrPlugin::default();
    let a = app(vec![]);
    assert!(p.on_key(Key::Tab, &a).is_empty());
    assert_eq!(p.view, CrunchrView::Search);
    assert_eq!(
        p.config_modal,
        ConfigModalState::Active { selected_field: 0, editing: false, static_field_count: 6 }
    );
    let draft = p.config_draft.as_ref().unwrap();
    assert_eq!(draft.backend, "whisper-cli");
    assert_eq!(draft.whisper_timeout_secs, 7200);
    assert_eq!(p.cached_channels, vec![("Twitch:c1".to_string(), "[Twitch] Chan".to_string())]);
    p.on_key(Key::Esc, &a);
    assert!(p.config_draft.is_none());
    assert!(!p.enabled && !p.configured);
}

#[test]
fn saved_settings_take_effect() {
    let mut p = CrunchrPlugin::new();
    let a = app(vec![]);
    p.on_key(Key::Other, &a);
    // Backend: two steps in the cycle.
    p.on_key(Key::Char('j'), &a);
    p.on_key(Key::Enter, &a);
    p.on_key(Key::Char(' '), &a);
    assert_eq!(p.config_draft.as_ref().unwrap().backend, "voxtral-local");
    // Key: typed and corrected.
    p.on_key(Key::Down, &a);
    p.on_key(Key::Enter, &a);
    for c in "AB".chars() {
        p.on_key(Key::Char(c), &a);
    }
    p.on_key(Key::Backspace, &a);
    p.on_key(Key::Esc, &a);
    assert_eq!(p.config_draft.as_ref().unwrap().api_key_env.as_deref(), Some("A"));
    // Analysis.
    for _ in 0..3 {
        p.on_key(Key::Down, &a);
    }
    p.on_key(Key::Enter, &a);
    // The channel: adding it enables the plugin.
    p.on_key(Key::Down, &a);
    assert!(!p.config_draft.as_ref().unwrap().enabled);
    p.on_key(Key::Enter, &a);
    assert!(p.config_draft.as_ref().unwrap().enabled);
    p.on_key(Key::Enter, &a);
    assert!(p.config_draft.as_ref().unwrap().tandem_channels.is_empty());
    p.on_key(Key::Enter, &a);
    // Save, which is the last field.
    p.on_key(Key::Down, &a);
    p.on_key(Key::Down, &a);
    assert!(!p.configured && p.tandem_channels.is_empty());
    match &p.on_key(Key::Enter, &a)[..] {
        [Effect::UpdateConfig(c)] => {
            assert!(c.enabled && c.configured && c.analysis.enabled);
            assert_eq!(c.tandem_channels, vec!["Twitch:c1"]);
        }
        effects => panic!("{effects:?}"),
    }
    assert!(p.configured && p.enabled);
    assert_eq!(p.tandem_channels, vec!["Twitch:c1"]);
    assert_eq!(p.config_modal, ConfigModalState::Hidden);
}

#[test]
fn the_picker_hands_recordings_over() {
    let mut p = started(false);
    let a = app(vec![
        recording(1, "c1", true),
        recording(2, "c2", false),
        recording(3, "c2", true),
    ]);
    p.on_key(Key::Tab, &a);
    assert_eq!(p.view, CrunchrView::Queue);
    p.on_key(Key::Tab, &a);
    assert_eq!(p.view, CrunchrView::RecordingPicker);
    p.on_key(Key::Down, &a);
    assert_eq!(p.picker.visible_ids, vec![1, 3]);
    assert_eq!(p.picker.selected, 1);
    match &p.on_key(Key::Enter, &a)[..] {
        [Effect::InsertVideo { recording_id: 3, .. }] => {}
        effects => panic!("{effects:?}"),
    }
    assert_eq!(p.view, CrunchrView::Queue);
    // In flight recordings are no longer listed.
    p.on_key(Key::Tab, &a);
    p.on_key(Key::Char('a'), &a);
    assert_eq!(p.picker.visible_ids, vec![1]);
    assert!(p.picker.selections.contains(&1));
    let effects = p.on_key(Key::Enter, &a);
    assert_eq!(effects.len(), 1);
    assert!(p.picker.selections.is_empty());
    // Nothing left: the view stays.
    p.on_key(Key::Tab, &a);
    assert!(p.on_key(Key::Enter, &a).is_empty());
    assert_eq!(p.view, CrunchrView::RecordingPicker);
    p.on_key(Key::Esc, &a);
    assert_eq!(p.view, CrunchrView::Search);
}

#[test]
fn recordings_are_processed_in_order() {
    let mut p = started(false);
    let a = app(vec![recording(1, "c1", true), recording(3, "c2", true)]);
    let effects = p.process_recordings(&vec![3, 9, 1, 3], &a);
    let ids: Vec<u128> = effects
        .iter()
        .map(|e| match e {
            Effect::InsertVideo { recording_id, .. } => *recording_id,
            other => panic!("{other:?}"),
        })
        .collect();
    assert_eq!(ids, vec![3, 1]);
}

#[test]
fn stored_rows_become_information() {
    let p = started(false);
    let rows = || RecordingRows {
        status: Some("complete".to_string()),
        video_id: Some(1),
        segments: Some(12),
        words: None,
        analysis: Some(("sum".to_string(), "[\"a\",\"b\\\"c\"]".to_string(), "mixed".to_string())),
    };
    let info = p.recording_info(rows()).unwrap();
    assert_eq!(info.status, "complete");
    assert_eq!((info.segment_count, info.word_count), (12, 0));
    assert!(info.has_analysis);
    assert_eq!(info.topics, vec!["a", "b\"c"]);
    let mut r = rows();
    r.analysis = Some(("s".to_string(), "not json".to_string(), "x".to_string()));
    assert!(p.recording_info(r).unwrap().topics.is_empty());
    let mut r = rows();
    r.status = None;
    assert!(p.recording_info(r).is_none());
    let mut r = rows();
    r.video_id = None;
    assert!(p.recording_info(r).is_none());
    assert!(CrunchrPlugin::new().recording_info(rows()).is_none());
}

#[test]
fn database_files_and_their_names() {
    let p = started(false);
    let (old_db, new_db) = p.database_files();
    assert_eq!((old_db.base.as_str(), &old_db.parts[..]), ("/data", &["sloptube.db".to_string()][..]));
    assert_eq!(new_db.parts, vec!["crunchr.db"]);
    assert!(CrunchrPlugin::renames_database(true, false));
    assert!(!CrunchrPlugin::renames_database(true, true));
    assert!(!CrunchrPlugin::renames_database(false, false));
}

#[test]
fn words_are_taken_in() {
    let mut p = started(false);
    p.word_frequencies_loaded(vec![("a".to_string(), 2)]);
    assert_eq!(p.word_frequencies, vec![("a".to_string(), 2)]);
}
