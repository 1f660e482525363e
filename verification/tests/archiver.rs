use strivo_plugins::archiver::downloader::{
    download_args, download_event, download_result, output_template, video_url, ToolOutcome,
};
use strivo_plugins::archiver::scanner::{scan_args, scan_event, scan_result};
use strivo_plugins::archiver::types::{
    ArchiveState, ArchiverEvent, ArchiverView, Effect, PendingVideo, VideoEntry,
};
use strivo_plugins::archiver::{channel_url, ArchiverPlugin};
use strivo_plugins::config::{ArchiverConfig, ConfigModalState, CrunchrAnalysisConfig};
use strivo_plugins::dirs::clips_dir;
use strivo_plugins::host::{
    AppSnapshot, ChannelEntry, Key, Platform, PlatformKind, RecordingInfo,
};

#[test]
fn video_url_youtube() {
    assert_eq!(video_url("abc123", "youtube"), "https://www.youtube.com/watch?v=abc123");
}

#[test]
fn video_url_twitch() {
    assert_eq!(video_url("12345", "twitch"), "https://www.twitch.tv/videos/12345");
}

fn config() -> ArchiverConfig {
    ArchiverConfig {
        enabled: true,
        configured: true,
        archive_dir: "/arch".to_string(),
        format: "best".to_string(),
        concurrent_fragments: 4,
        rate_limit: String::new(),
        tandem_channels: vec!["YouTube:y1".to_string()],
        tandem_playlists: vec![],
    }
}

fn channel(kind: PlatformKind, label: &str, id: &str) -> ChannelEntry {
    ChannelEntry {
        id: id.to_string(),
        name: format!("n{id}"),
        display_name: format!("D {id}"),
        platform: Platform { kind, label: label.to_string() },
    }
}

fn channels() -> Vec<ChannelEntry> {
    vec![
        channel(PlatformKind::Twitch, "Twitch", "t1"),
        channel(PlatformKind::YouTube, "YouTube", "y1"),
        channel(PlatformKind::Other, "Kick", "k1"),
    ]
}

fn recording(id: u128, platform: &str, channel: &str) -> RecordingInfo {
    RecordingInfo {
        id,
        finished: true,
        platform: platform.to_string(),
        channel_id: channel.to_string(),
        channel_name: "c".to_string(),
        stream_title: None,
        playlist: None,
        output_path: "/p".to_string(),
    }
}

fn app(recordings: Vec<RecordingInfo>) -> AppSnapshot {
    AppSnapshot {
        channels: channels(),
        recordings,
        analysis_defaults: CrunchrAnalysisConfig {
            enabled: false,
            openrouter_api_key_env: None,
            model: String::new(),
        },
        archiver_defaults: config(),
    }
}

fn started() -> ArchiverPlugin {
    let mut p = ArchiverPlugin::new();
    p.set_data_dir("/data".to_string());
    p.init(config());
    p.channels_updated(channels());
    p
}

fn video(id: &str) -> VideoEntry {
    VideoEntry {
        video_id: id.to_string(),
        title: "T".to_string(),
        upload_date: String::new(),
        duration_secs: None,
        playlist: None,
        downloaded: false,
    }
}

fn pending(id: &str) -> PendingVideo {
    PendingVideo { video_id: id.to_string(), title: format!("title {id}"), playlist: None }
}

#[test]
fn addresses_of_channels() {
    let all = channels();
    assert_eq!(
        channel_url(&all[0]).as_deref(),
        Some("https://www.twitch.tv/nt1/videos?filter=archives")
    );
    assert_eq!(channel_url(&all[1]).as_deref(), Some("https://www.youtube.com/@ny1/videos"));
    assert_eq!(channel_url(&all[2]), None);
}

#[test]
fn a_channel_is_archived_to_the_end() {
    let mut p = started();
    let all = channels();
    match &p.start_archive_as(&all[1], 5)[..] {
        [Effect::Scan { job_id: 5, url, archive_txt }] => {
            assert_eq!(url, "https://www.youtube.com/@ny1/videos");
            assert_eq!(archive_txt.base, "/arch");
            assert_eq!(archive_txt.parts, vec!["D y1", "archive.txt"]);
        }
        effects => panic!("{effects:?}"),
    }
    assert_eq!(p.jobs[0].state, ArchiveState::Scanning);
    assert_eq!(p.status_line().as_deref(), Some("AR:1"));
    let effects = p.handle_archiver_event(ArchiverEvent::ScanComplete {
        job_id: 5,
        videos: vec![video("a"), video("b")],
    });
    match &effects[..] {
        [Effect::StoreScan { name, url, platform, archive_dir, videos }, Effect::LoadPending { job_id: 5, url: again }] =>
        {
            assert_eq!(name, "D y1");
            assert_eq!(url, again);
            assert_eq!(platform, "YouTube");
            assert_eq!(archive_dir, "/arch");
            assert_eq!(videos.len(), 2);
        }
        effects => panic!("{effects:?}"),
    }
    let effects = p.pending_loaded(5, Some(vec![pending("b"), pending("a")]), &config());
    match &effects[..] {
        [Effect::Download { job_id: 5, video_id, url, output_dir, archive_txt, format, concurrent_fragments: 4, playlist: None }] =>
        {
            assert_eq!(video_id, "b");
            assert_eq!(url, "https://www.youtube.com/watch?v=b");
            assert_eq!(output_dir.parts, vec!["D y1"]);
            assert_eq!(archive_txt.parts, vec!["D y1", "archive.txt"]);
            assert_eq!(format, "best");
        }
        effects => panic!("{effects:?}"),
    }
    assert_eq!(p.jobs[0].current_video.as_deref(), Some("title b"));
    let effects = p.handle_archiver_event(ArchiverEvent::VideoDownloaded {
        job_id: 5,
        video_id: "b".to_string(),
    });
    assert!(matches!(&effects[..], [Effect::MarkDownloaded { .. }, Effect::LoadPending { .. }]));
    assert_eq!(p.jobs[0].completed_videos, 1);
    assert_eq!(p.jobs[0].state, ArchiveState::Downloading);
    let effects = p.handle_archiver_event(ArchiverEvent::VideoDownloaded {
        job_id: 5,
        video_id: "a".to_string(),
    });
    match &effects[..] {
        [Effect::MarkDownloaded { video_id, .. }, Effect::SetStatus(said)] => {
            assert_eq!(video_id, "a");
            assert_eq!(said, "Archiver: D y1 complete (2 videos)");
        }
        effects => panic!("{effects:?}"),
    }
    assert_eq!(p.jobs[0].state, ArchiveState::Complete);
    assert_eq!(p.status_line(), None);
}

#[test]
fn twitch_videos_come_from_twitch() {
    let mut p = started();
    p.start_archive_as(&channels()[0], 1);
    p.handle_archiver_event(ArchiverEvent::ScanComplete { job_id: 1, videos: vec![video("9")] });
    match &p.pending_loaded(1, Some(vec![pending("9")]), &config())[..] {
        [Effect::Download { url, .. }] => assert_eq!(url, "https://www.twitch.tv/videos/9"),
        effects => panic!("{effects:?}"),
    }
}

#[test]
fn ends_of_jobs() {
    let mut p = started();
    p.start_archive_as(&channels()[0], 1);
    let effects =
        p.handle_archiver_event(ArchiverEvent::ScanComplete { job_id: 1, videos: vec![] });
    match &effects[..] {
        [Effect::StoreScan { .. }, Effect::SetStatus(said)] => {
            assert_eq!(said, "Archiver: channel fully archived");
        }
        effects => panic!("{effects:?}"),
    }
    assert_eq!(p.jobs[0].state, ArchiveState::Complete);
    p.start_archive_as(&channels()[0], 2);
    let effects = p.handle_archiver_event(ArchiverEvent::JobError {
        job_id: 2,
        error: "bad".to_string(),
    });
    assert!(matches!(&effects[..], [Effect::SetStatus(s)] if s == "Archiver error: bad"));
    assert_eq!(p.jobs[1].error.as_deref(), Some("bad"));
    assert_eq!(p.last_error.as_deref(), Some("bad"));
    p.start_archive_as(&channels()[0], 3);
    assert!(p.handle_archiver_event(ArchiverEvent::JobComplete { job_id: 3 }).is_empty());
    assert_eq!(p.jobs[2].state, ArchiveState::Complete);
    p.start_archive_as(&channels()[0], 4);
    p.handle_archiver_event(ArchiverEvent::ScanComplete { job_id: 4, videos: vec![video("x")] });
    assert!(p.pending_loaded(4, None, &config()).is_empty());
    assert_eq!(p.jobs[3].state, ArchiveState::Downloading);
    assert!(p.pending_loaded(4, Some(vec![]), &config()).is_empty());
    assert_eq!(p.jobs[3].state, ArchiveState::Complete);
    // Nobody knows this job.
    assert!(p
        .handle_archiver_event(ArchiverEvent::VideoDownloaded {
            job_id: 99,
            video_id: "v".to_string()
        })
        .is_empty());
}

#[test]
fn channels_that_are_not_taken_up() {
    let mut p = ArchiverPlugin::default();
    let effects = p.start_archive(&channels()[0]);
    assert!(matches!(&effects[..], [Effect::SetStatus(s)] if s == "Archiver: no config"));
    assert!(p.jobs.is_empty());
    let mut p = started();
    assert!(p.start_archive(&channels()[2]).is_empty());
    assert!(p.jobs.is_empty());
}

#[test]
fn fresh_jobs_have_random_ids() {
    let mut p = started();
    p.start_archive(&channels()[0]);
    p.start_archive(&channels()[0]);
    assert_ne!(p.jobs[0].id, p.jobs[1].id);
    for job in &p.jobs {
        assert_eq!((job.id >> 76) & 0xf, 4);
        assert_eq!((job.id >> 62) & 3, 2);
    }
}

#[test]
fn a_tandem_recording_takes_its_channel_up() {
    let mut p = started();
    let a = app(vec![recording(1, "YouTube", "y1"), recording(2, "Twitch", "t1")]);
    assert!(p.recording_finished(2, true, &a).is_empty());
    assert!(p.recording_finished(1, false, &a).is_empty());
    assert_eq!(p.recording_finished(1, true, &a).len(), 1);
    assert_eq!(p.jobs[0].channel_name, "D y1");
    p.enabled = false;
    assert!(p.recording_finished(1, true, &a).is_empty());
}

#[test]
fn keys_in_the_lists() {
    let mut p = started();
    let a = app(vec![]);
    p.on_key(Key::Up, &a);
    assert_eq!(p.selected_channel, 2);
    p.on_key(Key::Down, &a);
    assert_eq!(p.selected_channel, 0);
    p.on_key(Key::Char('j'), &a);
    assert_eq!(p.selected_channel, 1);
    match &p.on_key(Key::Enter, &a)[..] {
        [Effect::Scan { url, .. }] => assert_eq!(url, "https://www.youtube.com/@ny1/videos"),
        effects => panic!("{effects:?}"),
    }
    p.on_key(Key::Char('d'), &a);
    assert_eq!(p.jobs[0].state, ArchiveState::Scanning);
    p.on_key(Key::Tab, &a);
    assert_eq!(p.view, ArchiverView::ArchiveQueue);
    p.on_key(Key::Char('d'), &a);
    assert_eq!(p.jobs[0].state, ArchiveState::Failed);
    assert_eq!(p.jobs[0].error.as_deref(), Some("Cancelled by user"));
    assert!(matches!(&p.on_key(Key::Esc, &a)[..], [Effect::NavigateBack]));
    p.on_key(Key::Tab, &a);
    assert_eq!(p.view, ArchiverView::RecordingPicker);
    p.on_key(Key::Tab, &a);
    assert_eq!(p.view, ArchiverView::ChannelList);
    p.selected_channel = 7;
    assert!(p.on_key(Key::Enter, &a).is_empty());
}

#[test]
fn the_settings_are_edited_and_saved() {
    let mut p = started();
    let a = app(vec![]);
    p.on_key(Key::Char('c'), &a);
    assert_eq!(
        p.config_modal,
        ConfigModalState::Active { selected_field: 0, editing: false, static_field_count: 5 }
    );
    p.on_key(Key::Down, &a);
    p.on_key(Key::Enter, &a);
    p.on_key(Key::Backspace, &a);
    p.on_key(Key::Char('k'), &a);
    p.on_key(Key::Enter, &a);
    assert_eq!(p.config_draft.as_ref().unwrap().archive_dir, "/arck");
    p.on_key(Key::Down, &a);
    p.on_key(Key::Down, &a);
    p.on_key(Key::Enter, &a);
    for c in "1x2".chars() {
        p.on_key(Key::Char(c), &a);
    }
    p.on_key(Key::Backspace, &a);
    p.on_key(Key::Esc, &a);
    assert_eq!(p.config_draft.as_ref().unwrap().concurrent_fragments, 12);
    for _ in 0..9 {
        p.on_key(Key::Down, &a);
    }
    match &p.on_key(Key::Char(' '), &a)[..] {
        [Effect::UpdateConfig(c)] => {
            assert_eq!(c.archive_dir, "/arck");
            assert_eq!(c.concurrent_fragments, 12);
            assert!(c.configured);
        }
        effects => panic!("{effects:?}"),
    }
    assert_eq!(p.config.as_ref().unwrap().archive_dir, "/arck");
    assert_eq!(p.config_modal, ConfigModalState::Hidden);
}

#[test]
fn keys_that_cannot_be_taken() {
    let mut p = started();
    let a = app(vec![]);
    assert!(p.takes_key(Key::Backspace));
    p.on_key(Key::Char('c'), &a);
    p.on_key(Key::Down, &a);
    p.on_key(Key::Enter, &a);
    p.on_key(Key::Char('ä'), &a);
    assert!(!p.takes_key(Key::Backspace));
    p.on_key(Key::Esc, &a);
    p.on_key(Key::Down, &a);
    p.on_key(Key::Down, &a);
    p.on_key(Key::Enter, &a);
    for _ in 0..9 {
        p.on_key(Key::Char('9'), &a);
    }
    assert!(!p.takes_key(Key::Char('9')));
    assert!(p.takes_key(Key::Char('x')));
}

#[test]
fn the_first_key_opens_the_archiver_settings() {
    let mut p = ArchiverPlugin::new();
    let a = app(vec![]);
    p.on_key(Key::Tab, &a);
    assert_eq!(p.view, ArchiverView::ChannelList);
    assert_eq!(p.config_draft.as_ref().unwrap().format, "best");
    p.on_key(Key::Esc, &a);
    assert!(p.config.is_none());
}

#[test]
fn picked_recordings_take_their_channels_up() {
    let mut p = started();
    let a = app(vec![recording(1, "YouTube", "y1"), recording(2, "Other", "none")]);
    let effects = p.process_recordings(&vec![2, 1, 8], &a);
    assert_eq!(effects.len(), 1);
    assert_eq!(p.view, ArchiverView::ArchiveQueue);
    p.view = ArchiverView::RecordingPicker;
    p.on_key(Key::Down, &a);
    assert_eq!(p.picker.selected, 1);
    assert!(p.on_key(Key::Enter, &a).is_empty());
    assert_eq!(p.view, ArchiverView::RecordingPicker);
    p.on_key(Key::Char('a'), &a);
    assert_eq!(p.on_key(Key::Enter, &a).len(), 1);
    assert!(p.picker.selections.is_empty());
}

#[test]
fn downloads_are_called_and_judged() {
    assert_eq!(
        output_template("/d", &None),
        "/d/%(upload_date>%Y-%m)s/%(upload_date>%m-%d-%Y)s - %(title)s.%(ext)s"
    );
    assert_eq!(
        output_template("/d", &Some("P".to_string())),
        "/d/Playlists/P/%(upload_date>%m-%d-%Y)s - %(title)s.%(ext)s"
    );
    let args = download_args("u", "/d", "/d/a.txt", "f", 8, &Some("c.txt".to_string()), &None);
    assert_eq!(args[..8], ["--download-archive", "/d/a.txt", "--no-overwrites", "-f", "f", "--concurrent-fragments", "8", "-o"]);
    assert_eq!(args[9..], ["--cookies", "c.txt", "u"]);
    let exited = |success: bool, stderr: &str| ToolOutcome::Exited {
        success,
        stdout: String::new(),
        stderr: stderr.to_string(),
    };
    assert_eq!(download_result(exited(true, "whatever")), Ok(()));
    assert_eq!(download_result(exited(false, "[x] has already been recorded in")), Ok(()));
    assert_eq!(
        download_result(exited(false, &"e".repeat(301))),
        Err(format!("yt-dlp download failed: {}", "e".repeat(300)))
    );
    assert_eq!(
        download_result(ToolOutcome::Unstarted("none".to_string())),
        Err("none".to_string())
    );
    match download_event(1, "v".to_string(), Err("e".to_string())) {
        ArchiverEvent::JobError { job_id: 1, error } => assert_eq!(error, "Download failed: e"),
        other => panic!("{other:?}"),
    }
    assert!(matches!(
        download_event(1, "v".to_string(), Ok(())),
        ArchiverEvent::VideoDownloaded { job_id: 1, .. }
    ));
}

#[test]
fn scans_are_called_and_read() {
    assert_eq!(
        scan_args("u", &None, &None),
        vec!["--flat-playlist", "--skip-download", "--dump-single-json", "--no-warnings", "u"]
    );
    assert_eq!(
        scan_args("u", &Some("c".to_string()), &Some("a".to_string()))[4..],
        ["--cookies", "c", "--download-archive", "a", "u"]
    );
    let exited = |success: bool, stdout: &str, stderr: &str| ToolOutcome::Exited {
        success,
        stdout: stdout.to_string(),
        stderr: stderr.to_string(),
    };
    let videos = scan_result(exited(
        true,
        "{\"entries\": [{\"id\": \"1\", \"playlist\": \"L\"}, {\"title\": \"no id\"}, {\"id\": \"2\", \"title\": \"T\", \"duration\": 5}]}",
        "",
    ))
    .unwrap();
    assert_eq!(videos.len(), 2);
    assert_eq!(videos[0].title, "Untitled");
    assert_eq!(videos[0].playlist.as_deref(), Some("L"));
    assert_eq!(videos[1].duration_secs.map(|d| f64::from_bits(d.bits)), Some(5.0));
    assert!(scan_result(exited(true, "{}", "")).unwrap().is_empty());
    assert!(scan_result(exited(true, "", "")).is_err());
    assert_eq!(
        scan_result(exited(false, "{}", "no")).unwrap_err(),
        "yt-dlp scan failed: no"
    );
    assert_eq!(
        scan_result(ToolOutcome::Unstarted("gone".to_string())).unwrap_err(),
        "gone"
    );
    match scan_event(4, Err("e".to_string())) {
        ArchiverEvent::JobError { job_id: 4, error } => assert_eq!(error, "Scan failed: e"),
        other => panic!("{other:?}"),
    }
    assert!(matches!(
        scan_event(4, Ok(vec![])),
        ArchiverEvent::ScanComplete { job_id: 4, .. }
    ));
}

#[test]
fn clips_go_below_the_data_directory() {
    let d = clips_dir(Some("/home/u/.local/share/strivo".to_string()));
    assert_eq!(d.base, "/home/u/.local/share/strivo");
    assert_eq!(d.parts, vec!["clips"]);
    assert_eq!(clips_dir(None).base, ".");
}

#[test]
fn the_archiver_database_file() {
    let mut p = started();
    let f = p.database_file();
    assert_eq!((f.base.as_str(), f.parts[0].as_str()), ("/data", "archiver.db"));
    p.shutdown();
    p.start_archive_as(&channels()[0], 1);
    let effects =
        p.handle_archiver_event(ArchiverEvent::ScanComplete { job_id: 1, videos: vec![video("x")] });
    assert!(effects.is_empty());
}
