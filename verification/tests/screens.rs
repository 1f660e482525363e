use std::collections::HashSet;

use strivo_plugins::archiver::render as archiver_screen;
use strivo_plugins::archiver::types::{ArchiveJob, ArchiveState, ArchiverView};
use strivo_plugins::archiver::ArchiverPlugin;
use strivo_plugins::config::{flip, ArchiverConfig, CrunchrAnalysisConfig, CrunchrConfig};
use strivo_plugins::crunchr::render as crunchr_screen;
use strivo_plugins::crunchr::render::Content;
use strivo_plugins::crunchr::types::{
    AnalysisData, CrunchrRecordingInfo, PipelineState, ProcessingJob, SearchMode, SearchResult,
};
use strivo_plugins::crunchr::CrunchrPlugin;
use strivo_plugins::host::{ChannelEntry, JoinedPath, Key, Platform, PlatformKind, RecordingInfo};
use strivo_plugins::number::Double;
use strivo_plugins::picker::{PickerState, RecordingFilter};
use strivo_plugins::picker_screen::{filter_label, picker_hint, picker_lines, picker_title};
use strivo_plugins::screen::{form_scroll, Line, Span, Tone};

fn plain(line: &Line) -> String {
    match line {
        Line::Whole(s) => s.text.clone(),
        Line::Spans(all) => all.iter().map(|s| s.text.as_str()).collect(),
    }
}

fn all(lines: &[Line]) -> Vec<String> {
    lines.iter().map(plain).collect()
}

fn job(state: PipelineState, error: Option<&str>) -> ProcessingJob {
    ProcessingJob {
        recording_id: 1,
        channel_name: "Chan".to_string(),
        title: "Title".to_string(),
        video_path: String::new(),
        audio_path: None,
        state,
        error: error.map(|e| e.to_string()),
    }
}

#[test]
fn timestamps() {
    assert_eq!(crunchr_screen::format_timestamp(0), "0:00");
    assert_eq!(crunchr_screen::format_timestamp(65), "1:05");
    assert_eq!(crunchr_screen::format_timestamp(3600), "1:00:00");
    assert_eq!(crunchr_screen::format_timestamp(36_061), "10:01:01");
}

#[test]
fn the_search_bar_is_padded() {
    let wide = crunchr_screen::search_bar("query", SearchMode::FullText, true, 60);
    // 60 columns less 5, less the query, less the label and 4.
    assert_eq!(plain(&wide), format!(" / query▌{}[FTS] ", " ".repeat(43)));
    let narrow = crunchr_screen::search_bar("query", SearchMode::Semantic, false, 50);
    assert_eq!(plain(&narrow), format!(" / query{}", " ".repeat(40)));
    let tiny = crunchr_screen::search_bar("a long query", SearchMode::Semantic, false, 4);
    assert_eq!(plain(&tiny), " / a long query");
}

#[test]
fn snippets_are_highlighted_and_cut() {
    let show = |s: &str, n: usize| -> Option<Vec<(String, bool)>> {
        crunchr_screen::highlighted_snippet(s, n, Tone::Fg)
            .map(|v| v.into_iter().map(|s: Span| (s.text, s.bold)).collect())
    };
    let t = |s: &str, b: bool| (s.to_string(), b);
    assert_eq!(
        show("a >>>b<<< c", 80),
        Some(vec![t("a ", false), t("b", true), t(" c", false)])
    );
    assert_eq!(show("ab>>>cd<<<ef", 3), Some(vec![t("ab", false), t("c", true)]));
    assert_eq!(show("x>>>open", 80), Some(vec![t("x", false), t("open", true)]));
    assert_eq!(show(">>>a<<<>>>b<<<", 80), Some(vec![t("a", true), t("b", true)]));
    assert_eq!(show("plain", 2), Some(vec![t("pl", false)]));
    assert_eq!(show("", 5), Some(vec![]));
    assert_eq!(show("x", 0), Some(vec![]));
    assert_eq!(show("ä", 1), None);
    assert_eq!(show("ab>>>ö<<<", 3), None);
    assert_eq!(show("ab>>>ö<<<", 4), Some(vec![t("ab", false), t("ö", true)]));
}

#[test]
fn hits_are_listed() {
    let hit = |title: &str, snippet: &str| SearchResult {
        chunk_id: 1,
        video_title: title.to_string(),
        channel_name: "ch".to_string(),
        snippet: snippet.to_string(),
        start_sec: Double { bits: 0 },
        score: Double { bits: 0 },
        video_path: None,
    };
    let hits = vec![hit("one", "s1"), hit("two", "s2")];
    let speaker = Some("Ann".to_string());
    let lines = crunchr_screen::result_lines(&hits, &vec![5, 3605], 1, &speaker, 40).unwrap();
    assert_eq!(
        all(&lines),
        vec![" one (ch) [0:05]", "  s1", "", ">two (ch) [1:00:05]", "  [Ann] s2", ""]
    );
    assert!(crunchr_screen::result_lines(&vec![hit("x", "ä")], &vec![0], 0, &None, 5).is_none());
    assert_eq!(crunchr_screen::result_scroll(1, 10), 0);
    assert_eq!(crunchr_screen::result_scroll(5, 10), 10);
    assert!(crunchr_screen::needs_scrollbar(4, 10) && !crunchr_screen::needs_scrollbar(3, 10));
}

#[test]
fn the_queue_is_shown() {
    let queue = vec![
        job(PipelineState::Complete, None),
        job(PipelineState::Pending, None),
        job(PipelineState::Transcribing, Some("slow")),
        job(PipelineState::Failed, Some("bad")),
    ];
    let lines = all(&crunchr_screen::queue_lines(&queue, 1, 80));
    assert_eq!(
        lines,
        vec![
            "",
            "  Processing Pipeline",
            "",
            "  ○ Chan - Title",
            "    Pending...",
            "",
            "  ● Chan - Title",
            "    Transcribing - slow",
            "",
            "  ✓ Chan - Title",
            "",
            "  Press / to search transcripts",
        ]
    );
    let lines = all(&crunchr_screen::queue_lines(&queue, usize::MAX, 10));
    assert_eq!(lines[3], "  ○ Chan");
    assert_eq!(lines[10], "  ✗ Chan");
    let mut p = CrunchrPlugin::new();
    assert!(crunchr_screen::shows_no_backend(&p));
    match crunchr_screen::content(&p, 80) {
        Content::Lines(l) => assert_eq!(all(&l), all(&crunchr_screen::no_transcript_lines())),
        other => panic!("{other:?}"),
    }
    p.queue = queue;
    assert!(!crunchr_screen::shows_no_backend(&p));
    match crunchr_screen::content(&p, 80) {
        Content::Lines(l) => assert_eq!(all(&l), all(&crunchr_screen::queue_lines(&p.queue, 5, 80))),
        other => panic!("{other:?}"),
    }
    assert_eq!(crunchr_screen::no_backend_lines().len(), 10);
}

#[test]
fn the_footer_shows_what_matters() {
    let join = |v: Vec<Span>| -> String { v.into_iter().map(|s| s.text).collect() };
    let mut p = CrunchrPlugin::new();
    assert_eq!(join(crunchr_screen::footer(&p, 80)), "");
    p.word_frequencies = vec![("alpha".to_string(), 10), ("beta".to_string(), 9), ("gamma".to_string(), 8)];
    assert_eq!(join(crunchr_screen::footer(&p, 80)), " Top: alpha(10), beta(9), gamma(8)");
    // 9 bytes for the first, 9 more for the second with its comma.
    assert_eq!(join(crunchr_screen::footer(&p, 7 + 18)), " Top: alpha(10), beta(9)");
    assert_eq!(join(crunchr_screen::footer(&p, 7 + 17)), " Top: alpha(10)");
    assert_eq!(join(crunchr_screen::footer(&p, 3)), " Top: ");
    p.queue = vec![job(PipelineState::Pending, None), job(PipelineState::Complete, None)];
    assert_eq!(join(crunchr_screen::footer(&p, 80)), " Queue: 1 pending / 1 done");
    p.last_error = Some("broken pipe".to_string());
    assert_eq!(join(crunchr_screen::footer(&p, 10)), " ⚠ broken");
}

#[test]
fn the_analysis_is_shown() {
    let a = AnalysisData {
        summary: "abcdef".to_string(),
        topics: (0..8).map(|n| format!("t{n}")).collect(),
        sentiment: "positive".to_string(),
    };
    let lines = crunchr_screen::analysis_lines(&a, 2);
    assert_eq!(all(&lines), vec![" abcd", " t0, t1, t2, t3, t4, t5  (positive)"]);
    match &lines[1] {
        Line::Spans(s) => assert_eq!(s.last().unwrap().tone, Tone::Green),
        other => panic!("{other:?}"),
    }
    let none = AnalysisData {
        summary: String::new(),
        topics: vec![],
        sentiment: "unknown".to_string(),
    };
    assert_eq!(all(&crunchr_screen::analysis_lines(&none, 20)), vec!["  No analysis available"]);
}

fn crunchr_config() -> CrunchrConfig {
    CrunchrConfig {
        enabled: true,
        configured: false,
        backend: "whisper-cli".to_string(),
        api_key_env: None,
        endpoint: Some("http://e".to_string()),
        whisper_model: None,
        whisper_timeout_secs: 1,
        analysis: CrunchrAnalysisConfig {
            enabled: false,
            openrouter_api_key_env: None,
            model: String::new(),
        },
        tandem_channels: vec!["T:1".to_string()],
        tandem_playlists: vec![],
    }
}

#[test]
fn the_settings_are_shown() {
    let channels = vec![
        ("T:1".to_string(), "[T] one".to_string()),
        ("T:2".to_string(), "[T] two".to_string()),
    ];
    let lines = crunchr_screen::config_lines(&crunchr_config(), &channels, 3, true);
    assert_eq!(
        all(&lines),
        vec![
            "   Enabled: Yes",
            "   Backend: whisper-cli",
            "   API Key Env: ",
            " > Endpoint: http://e▌",
            "   Whisper Model: base",
            "   Analysis: No",
            "",
            "   Tandem Channels (auto-process on recording finish):",
            "   [x] [T] one",
            "   [ ] [T] two",
            "",
            "     Save",
        ]
    );
    let lines = crunchr_screen::config_lines(&crunchr_config(), &vec![], 6, false);
    assert_eq!(plain(lines.last().unwrap()), "   [ Save ]");
    assert_eq!(lines.len(), 8);
    assert_eq!(crunchr_screen::config_title(true), " CrunchR Settings ");
    assert_eq!(crunchr_screen::config_title(false), " Configure CrunchR ");
    assert_eq!(form_scroll(5, 10), 0);
    assert_eq!(form_scroll(11, 10), 6);
}

#[test]
fn the_properties_of_a_recording() {
    assert_eq!(all(&crunchr_screen::properties_section(&None)), vec!["", "  Transcript", "  Not processed"]);
    let info = CrunchrRecordingInfo {
        status: "complete".to_string(),
        segment_count: 3,
        word_count: 44,
        has_analysis: true,
        summary: Some("sum".to_string()),
        topics: vec!["a".to_string(), "b".to_string()],
        sentiment: Some("negative".to_string()),
    };
    assert_eq!(
        all(&crunchr_screen::properties_section(&Some(info))),
        vec![
            "",
            "  Transcript",
            "  Status:   complete",
            "  Segments: 3",
            "  Words:    44",
            "",
            "  Analysis",
            "  sum",
            "  Topics:   a, b",
            "  Sentiment: negative",
        ]
    );
}

fn recording(id: u128, channel: &str, playlist: Option<&str>) -> RecordingInfo {
    RecordingInfo {
        id,
        finished: true,
        platform: "T".to_string(),
        channel_id: channel.to_string(),
        channel_name: format!("ch {channel}"),
        stream_title: if id == 1 { Some("First".to_string()) } else { None },
        playlist: playlist.map(|p| p.to_string()),
        output_path: String::new(),
    }
}

#[test]
fn the_picker_filters_and_cycles() {
    let recs = vec![recording(1, "a", None), recording(2, "b", Some("P")), recording(3, "a", None)];
    let idle: HashSet<u128> = HashSet::new();
    let mut p = PickerState::new();
    p.refresh(&recs, &idle);
    assert_eq!(p.visible_ids, vec![1, 2, 3]);
    p.on_key(Key::Char('f'), &recs, &idle);
    assert!(matches!(&p.filter, RecordingFilter::ByChannel(c) if c == "T:a"));
    assert_eq!(p.visible_ids, vec![1, 3]);
    p.on_key(Key::Char('f'), &recs, &idle);
    assert!(matches!(&p.filter, RecordingFilter::ByChannel(c) if c == "T:b"));
    p.on_key(Key::Char('f'), &recs, &idle);
    assert!(matches!(&p.filter, RecordingFilter::All));
    p.filter = RecordingFilter::ByPlaylist("P".to_string());
    p.refresh(&recs, &idle);
    assert_eq!(p.visible_ids, vec![2]);
    let busy: HashSet<u128> = [2].into_iter().collect();
    p.refresh(&recs, &busy);
    assert!(p.visible_ids.is_empty());
    assert!(p.take_picked().is_empty());
}

#[test]
fn the_picker_selects() {
    let recs = vec![recording(1, "a", None), recording(2, "b", None)];
    let idle: HashSet<u128> = HashSet::new();
    let mut p = PickerState::new();
    p.refresh(&recs, &idle);
    p.on_key(Key::Char(' '), &recs, &idle);
    assert!(p.selections.contains(&1));
    p.on_key(Key::Char(' '), &recs, &idle);
    assert!(p.selections.is_empty());
    p.on_key(Key::Up, &recs, &idle);
    assert_eq!(p.selected, 1);
    assert_eq!(p.take_picked(), vec![2]);
    p.on_key(Key::Char('a'), &recs, &idle);
    let mut picked = p.take_picked();
    picked.sort();
    assert_eq!(picked, vec![1, 2]);
    assert!(p.selections.is_empty());
}

#[test]
fn the_picker_is_shown() {
    let recs = vec![recording(1, "a", None), recording(2, "b", None)];
    let mut p = PickerState::new();
    assert_eq!(
        all(&picker_lines(&p, &recs, "  none", "  advice")),
        vec!["", "  none", "", "  advice"]
    );
    p.visible_ids = vec![2, 9, 1];
    p.selections.insert(1);
    p.selected = 1;
    assert_eq!(
        all(&picker_lines(&p, &recs, "  none", "  advice")),
        vec!["  [ ] ch b Untitled", "> [x] ch a First"]
    );
    assert_eq!(filter_label(&RecordingFilter::ByPlaylist("P".to_string())), "Playlist: P");
    assert_eq!(
        picker_title("CrunchR", &RecordingFilter::ByChannel("T:a".to_string())),
        " CrunchR Picker [Channel: T:a] "
    );
    assert_eq!(
        picker_hint(&p.selections, "Process"),
        " 1 selected  [Enter] Process  [Space] Toggle  [f] Filter  [a] Select all  [Esc] Back"
    );
    assert_eq!(
        picker_hint(&HashSet::new(), "Archive"),
        " [Enter] Archive  [Space] Select  [f] Filter  [a] Select all  [Tab] Views  [Esc] Back"
    );
}

#[test]
fn flipping_a_key_twice() {
    let mut keys = vec!["a".to_string(), "b".to_string(), "a".to_string()];
    assert!(!flip(&mut keys, "a"));
    assert_eq!(keys, vec!["b"]);
    assert!(flip(&mut keys, "a"));
    assert_eq!(keys, vec!["b", "a"]);
}

fn archive_job(state: ArchiveState) -> ArchiveJob {
    ArchiveJob {
        id: 1,
        channel_name: "A channel with a very long name".to_string(),
        channel_url: String::new(),
        platform: Platform { kind: PlatformKind::Twitch, label: "Twitch".to_string() },
        archive_dir: JoinedPath::of("/a"),
        state,
        total_videos: 3,
        completed_videos: 1,
        current_video: Some("A video with a title that is too long".to_string()),
        error: None,
    }
}

#[test]
fn archive_jobs_are_shown() {
    let show = |s: ArchiveState| plain(&archiver_screen::job_row(&archive_job(s), 33));
    assert_eq!(show(ArchiveState::Pending), "  ○ A channel with a ver");
    assert_eq!(show(ArchiveState::Scanning), "  ⟳ A channel with a ver Scanning...");
    assert_eq!(
        show(ArchiveState::Downloading),
        "  ⟳ A channel with a ver 1/3 (33%) A video with a title that"
    );
    assert_eq!(show(ArchiveState::Paused), "  ◼ A channel with a ver");
    assert_eq!(show(ArchiveState::Complete), "  ✓ A channel with a ver Complete (3 videos)");
    assert_eq!(show(ArchiveState::Failed), "  ✗ A channel with a ver unknown");
    let mut j = archive_job(ArchiveState::Downloading);
    j.total_videos = 0;
    j.current_video = None;
    assert_eq!(plain(&archiver_screen::job_row(&j, 0)), "  ⟳ A channel with a ver ");
    assert_eq!(archiver_screen::no_job_lines().len(), 4);
}

#[test]
fn channels_are_shown() {
    let c = |name: &str, label: &str| ChannelEntry {
        id: String::new(),
        name: String::new(),
        display_name: name.to_string(),
        platform: Platform { kind: PlatformKind::Other, label: label.to_string() },
    };
    let rows = all(&archiver_screen::channel_rows(&vec![c("abc", "Twitch"), c("ä", "YouTube"), c(&"x".repeat(40), "?")]));
    assert_eq!(rows[0], format!("  abc{}(TW)", " ".repeat(24)));
    assert_eq!(rows[1], format!("  ä{}(YT)", " ".repeat(25)));
    assert_eq!(rows[2], format!("  {}(??)", "x".repeat(30)));
    assert_eq!(archiver_screen::no_channel_lines().len(), 4);
}

#[test]
fn the_archiver_frame_is_shown() {
    let line = archiver_screen::header(ArchiverView::ArchiveQueue);
    assert_eq!(plain(&line), " Channels  |  Queue  |  Picker  [Tab]  [c] Settings");
    match line {
        Line::Spans(s) => {
            assert!(!s[0].bold && s[2].bold && !s[4].bold);
        }
        other => panic!("{other:?}"),
    }
    let mut p = ArchiverPlugin::new();
    assert_eq!(plain(&archiver_screen::footer(&p, 80)), " ~/Videos/StriVo/Archives");
    let config = ArchiverConfig {
        enabled: false,
        configured: true,
        archive_dir: "/archive/dir".to_string(),
        format: "best".to_string(),
        concurrent_fragments: 16,
        rate_limit: String::new(),
        tandem_channels: vec![],
        tandem_playlists: vec![],
    };
    let lines = archiver_screen::config_lines(&config, &vec![], 4, false);
    assert_eq!(
        all(&lines),
        vec![
            "   Enabled: No",
            "   Archive Dir: /archive/dir",
            "   Format: best",
            "   Fragments: 16",
            " > Rate Limit: (none)",
            "",
            "     Save",
        ]
    );
    p.config = Some(config);
    p.jobs = vec![archive_job(ArchiveState::Scanning), archive_job(ArchiveState::Complete)];
    assert_eq!(plain(&archiver_screen::footer(&p, 28)), " [AR:1]  /archive");
    p.last_error = Some("oops".to_string());
    assert_eq!(plain(&archiver_screen::footer(&p, 80)), " ⚠ oops");
    assert_eq!(archiver_screen::config_title(true), " Archiver Settings ");
    assert_eq!(archiver_screen::config_title(false), " Configure Archiver ");
}
