use strivo_plugins::config::{CrunchrAnalysisConfig, CrunchrConfig};
use strivo_plugins::crunchr::analysis::{
    analysis_event, analysis_request, analysis_result, read_analysis, read_topics, reply_content,
    stored_analysis, strip_fences, AnalysisReply, AnalysisResult,
};
use strivo_plugins::crunchr::db::sanitize_fts_query;
use strivo_plugins::crunchr::transcribe::voxtral_local::{VoxtralLocalBackend, VoxtralReply};
use strivo_plugins::crunchr::transcribe::whisper_cli::{
    AudioFile, WhisperCLIBackend, WhisperOutcome, WhisperRun, WhisperStep,
};
use strivo_plugins::crunchr::transcribe::{
    create_backend, read_transcript, Backend, TranscriptionBackend,
};
use strivo_plugins::crunchr::types::PipelineEvent;
use strivo_plugins::json::{parse, Json};

fn config(backend: &str) -> CrunchrConfig {
    CrunchrConfig {
        enabled: false,
        configured: false,
        backend: backend.to_string(),
        api_key_env: None,
        endpoint: None,
        whisper_model: Some("tiny".to_string()),
        whisper_timeout_secs: 5,
        analysis: CrunchrAnalysisConfig {
            enabled: true,
            openrouter_api_key_env: None,
            model: "m".to_string(),
        },
        tandem_channels: vec![],
        tandem_playlists: vec![],
    }
}

#[test]
fn backends_follow_the_configuration() {
    let key = || Some("k".to_string());
    assert_eq!(create_backend(&config("voxtral-api"), key()).backend_name(), "voxtral");
    assert_eq!(create_backend(&config("voxtral"), key()).backend_name(), "voxtral");
    assert!(create_backend(&config("voxtral"), key()).supports_diarization());
    assert_eq!(create_backend(&config("voxtral"), None).backend_name(), "whisper-cli");
    assert_eq!(
        create_backend(&config("voxtral"), Some(String::new())).backend_name(),
        "whisper-cli"
    );
    assert_eq!(create_backend(&config("voxtral-local"), None).backend_name(), "voxtral-local");
    assert_eq!(create_backend(&config("anything"), key()).backend_name(), "whisper-cli");
    assert!(!create_backend(&config("anything"), key()).supports_diarization());
    match create_backend(&config("voxtral"), key()) {
        Backend::VoxtralApi(b) => assert_eq!(b.api_key(), "k"),
        other => panic!("{other:?}"),
    }
}

#[test]
fn whisper_tries_the_preferred_model_first() {
    let models = WhisperCLIBackend::new(Some("tiny".to_string()), 1).models();
    assert_eq!(models, vec!["tiny", "base", "small", "medium", "large-v3"]);
    let models = WhisperCLIBackend::new(Some("medium".to_string()), 1).models();
    assert_eq!(models, vec!["medium", "base", "small", "large-v3"]);
    assert_eq!(WhisperCLIBackend::new(None, 1).models().len(), 4);
}

fn audio() -> AudioFile {
    AudioFile {
        path: "/a/b.wav".to_string(),
        dir: Some("/a".to_string()),
        stem: Some("b".to_string()),
    }
}

#[test]
fn a_whisper_run_goes_through_the_models() {
    let backend = WhisperCLIBackend::new(None, 30);
    let mut run = backend.start(audio());
    match run.next() {
        WhisperStep::Call { args, timeout_secs } => {
            assert_eq!(
                args,
                vec![
                    "/a/b.wav", "--model", "base", "--output_format", "json", "--output_dir", "/a",
                    "--language", "en"
                ]
            );
            assert_eq!(timeout_secs, 30);
        }
        other => panic!("{other:?}"),
    }
    run.on_outcome(WhisperOutcome::Unstarted("gone".to_string()));
    assert_eq!(run.last_error, "whisper process error: gone");
    match run.on_outcome(WhisperOutcome::TimedOut) {
        WhisperStep::Call { args, .. } => assert_eq!(args[2], "medium"),
        other => panic!("{other:?}"),
    }
    assert_eq!(run.last_error, "whisper model small timed out after 30s");
    run.on_outcome(WhisperOutcome::Exited { success: false, stderr: "e1".to_string() });
    match run.on_outcome(WhisperOutcome::Exited { success: false, stderr: "z".repeat(201) }) {
        WhisperStep::Fail(e) => {
            assert_eq!(e, format!("All whisper models failed. Last error: {}", "z".repeat(200)));
        }
        other => panic!("{other:?}"),
    }
}

#[test]
fn a_successful_call_is_read() {
    let backend = WhisperCLIBackend::new(None, 30);
    let mut run = backend.start(audio());
    let step = run.on_outcome(WhisperOutcome::Exited { success: true, stderr: String::new() });
    assert!(matches!(step, WhisperStep::Read { file_name } if file_name == "b.json"));
    assert_eq!(run.tried, 0);
    let mut nameless = backend.start(AudioFile { path: String::new(), dir: None, stem: None });
    match nameless.next() {
        WhisperStep::Call { args, .. } => assert_eq!(args[6], "."),
        other => panic!("{other:?}"),
    }
    let step = nameless.on_outcome(WhisperOutcome::Exited { success: true, stderr: String::new() });
    assert!(matches!(step, WhisperStep::Read { file_name } if file_name == "audio.json"));
    let text = "{\"text\": \" all \", \"segments\": [{\"start\": 1, \"end\": 2.5, \"text\": \" hi \", \"avg_logprob\": -0.5}, {}]}";
    let t = WhisperRun::result(Ok(text.to_string())).unwrap();
    assert_eq!(t.full_text, " all ");
    assert_eq!(t.segments.len(), 2);
    assert_eq!(t.segments[0].text, "hi");
    assert_eq!(f64::from_bits(t.segments[0].start_sec.bits), 1.0);
    assert_eq!(f64::from_bits(t.segments[0].end_sec.bits), 2.5);
    assert_eq!(t.segments[0].confidence.map(|c| f64::from_bits(c.bits)), Some(-0.5));
    assert_eq!(t.segments[1].index, 1);
    assert_eq!(t.segments[1].text, "");
    assert!(t.segments[1].confidence.is_none());
    assert!(WhisperRun::result(Ok("{".to_string())).is_err());
    assert_eq!(WhisperRun::result(Err("io".to_string())).unwrap_err(), "io");
}

#[test]
fn a_document_without_segments_has_none() {
    let t = read_transcript(&Json::Null);
    assert!(t.segments.is_empty());
    assert_eq!(t.full_text, "");
}

#[test]
fn the_local_endpoint_is_asked() {
    let b = VoxtralLocalBackend::new("http://h:8000/v1//".to_string());
    let r = b.request(&vec![77, 97, 110, 77], None);
    assert_eq!(r.url, "http://h:8000/v1/audio/transcriptions");
    assert_eq!(r.model, "default");
    assert_eq!(r.response_format, "verbose_json");
    assert_eq!(f64::from_bits(r.temperature.bits), 0.0);
    assert_eq!(r.file_data, "TWFuTQ==");
    assert_eq!(r.file_name, "audio.wav");
    let r = b.request(&vec![], Some("x.wav".to_string()));
    assert_eq!(r.file_data, "");
    assert_eq!(r.file_name, "x.wav");
    let r = b.request(&vec![255, 254, 253, 0, 16], None);
    assert_eq!(r.file_data, "//79ABA=");
}

#[test]
fn replies_of_the_local_endpoint() {
    let url = "http://h/x";
    let e = VoxtralLocalBackend::result(url, VoxtralReply::Unreachable("refused".to_string()));
    assert_eq!(e.unwrap_err(), "Failed to reach Voxtral endpoint at http://h/x: refused");
    let e = VoxtralLocalBackend::result(
        url,
        VoxtralReply::Refused { status: "500 Internal Server Error".to_string(), body: None },
    );
    assert_eq!(
        e.unwrap_err(),
        "Voxtral local endpoint returned 500 Internal Server Error: unknown error"
    );
    let e = VoxtralLocalBackend::result(
        url,
        VoxtralReply::Refused { status: "400".to_string(), body: Some("y".repeat(400)) },
    );
    assert_eq!(
        e.unwrap_err(),
        format!("Voxtral local endpoint returned 400: {}", "y".repeat(300))
    );
    let e = VoxtralLocalBackend::result(url, VoxtralReply::Broken("cut".to_string()));
    assert_eq!(e.unwrap_err(), "cut");
    let e = VoxtralLocalBackend::result(url, VoxtralReply::Answered("<html>".to_string()));
    assert_eq!(e.unwrap_err(), "error decoding response body");
    let t = VoxtralLocalBackend::result(url, VoxtralReply::Answered("{\"text\":\"t\"}".to_string()));
    assert_eq!(t.unwrap().full_text, "t");
}

#[test]
fn the_analysis_is_asked_for() {
    let c = config("x").analysis;
    let e = analysis_request(&c, None, "ch", "ti", "tr");
    assert_eq!(e.unwrap_err(), "OpenRouter API key not configured");
    let words = vec!["w"; 7000].join("  ");
    let r = analysis_request(&c, Some("k".to_string()), "ch", "ti", &words).unwrap();
    assert_eq!(r.url, "https://openrouter.ai/api/v1/chat/completions");
    assert_eq!(r.headers[0], ("Authorization".to_string(), "Bearer k".to_string()));
    assert_eq!(r.headers.len(), 4);
    assert_eq!(r.model, "m");
    assert_eq!(f64::from_bits(r.temperature.bits), 0.3);
    assert_eq!(r.max_tokens, 500);
    let want = format!(
        r#"Analyze this transcript from a live stream recording.

Channel: ch
Title: ti

Transcript:
{}

Respond in this exact JSON format (no markdown, just raw JSON):
{{
  "summary": "2-3 sentence summary of the content",
  "topics": ["topic1", "topic2", "topic3"],
  "sentiment": "positive|negative|neutral|mixed"
}}"#,
        vec!["w"; 6000].join(" ")
    );
    assert_eq!(r.prompt, want);
}

fn reply(content: &str) -> AnalysisReply {
    let quoted = content.replace('\\', "\\\\").replace('"', "\\\"").replace('\n', "\\n");
    AnalysisReply::Answered(format!(
        "{{\"choices\": [{{\"message\": {{\"content\": \"{quoted}\"}}}}]}}"
    ))
}

#[test]
fn replies_of_the_model() {
    let a = analysis_result(reply(
        "{\"summary\": \"s\", \"topics\": [\"a\", 1, \"b\"], \"sentiment\": \"mixed\"}",
    ))
    .unwrap();
    assert_eq!(a.summary, "s");
    assert_eq!(a.topics, vec!["a", "b"]);
    assert_eq!(a.sentiment, "mixed");
    // A plain fence is taken off.
    let a = analysis_result(reply("```\n{\"summary\": \"f\"}\n```")).unwrap();
    assert_eq!(a.summary, "f");
    assert_eq!(a.sentiment, "unknown");
    // So is one that is tagged.
    let a = analysis_result(reply(
        "```json\n{\"summary\":\"S\",\"topics\":[\"a\"],\"sentiment\":\"neutral\"}\n```",
    ))
    .unwrap();
    assert_eq!(a.summary, "S");
    assert_eq!(a.topics, vec!["a"]);
    assert_eq!(a.sentiment, "neutral");
    // What is no document leads to the stand-ins.
    let a = analysis_result(reply("no json at all")).unwrap();
    assert_eq!(a.summary, "Analysis unavailable");
    assert!(a.topics.is_empty());
    let a = analysis_result(AnalysisReply::Answered("{}".to_string())).unwrap();
    assert_eq!(a.summary, "Analysis unavailable");
    let e = analysis_result(AnalysisReply::Answered("<".to_string()));
    assert_eq!(e.unwrap_err(), "error decoding response body");
    let e = analysis_result(AnalysisReply::Unreachable("dns".to_string()));
    assert_eq!(e.unwrap_err(), "dns");
    let e = analysis_result(AnalysisReply::Refused { status: "429".to_string(), body: None });
    assert_eq!(e.unwrap_err(), "OpenRouter API returned 429: unknown error");
}

#[test]
fn fences_and_contents() {
    assert_eq!(strip_fences("```\n{}\n```"), "{}");
    assert_eq!(strip_fences("```json\n{}\n```"), "{}");
    assert_eq!(strip_fences("  ```json {} ``` \n"), "{}");
    assert_eq!(strip_fences("```json\n{}"), "{}");
    assert_eq!(strip_fences("{}\n```"), "{}");
    assert_eq!(strip_fences("```json```{}```"), "{}");
    assert_eq!(strip_fences("plain"), "plain");
    assert_eq!(reply_content(&parse("{\"choices\": []}").unwrap()), "{}");
    assert_eq!(read_analysis(&Json::Null).sentiment, "unknown");
}

#[test]
fn topics_are_stored_and_read_back() {
    let topics = vec!["plain".to_string(), "with \"quotes\"".to_string(), "ünï\n".to_string()];
    let result = AnalysisResult {
        summary: "s".to_string(),
        topics: topics.clone(),
        sentiment: "neutral".to_string(),
    };
    match analysis_event(5, Ok(result)) {
        PipelineEvent::AnalysisComplete { recording_id, summary, topics: stored, sentiment } => {
            assert_eq!(recording_id, 5);
            assert_eq!((summary.as_str(), sentiment.as_str()), ("s", "neutral"));
            assert_eq!(stored, "[\"plain\",\"with \\\"quotes\\\"\",\"ünï\\n\"]");
            assert_eq!(read_topics(&stored), topics);
            let shown = stored_analysis("s".to_string(), &stored, "neutral".to_string());
            assert_eq!(shown.topics, topics);
        }
        other => panic!("{other:?}"),
    }
    match analysis_event(5, Err("x".to_string())) {
        PipelineEvent::AnalysisComplete { summary, topics, sentiment, .. } => {
            assert_eq!((summary.as_str(), topics.as_str(), sentiment.as_str()), ("", "[]", "unknown"));
            assert!(read_topics(&topics).is_empty());
        }
        other => panic!("{other:?}"),
    }
}

#[test]
fn queries_become_literal_phrases() {
    assert_eq!(sanitize_fts_query("a b"), "\"a b\"");
    assert_eq!(sanitize_fts_query("x\" OR \"y"), "\"x\"\" OR \"\"y\"");
    assert_eq!(sanitize_fts_query(""), "\"\"");
}
