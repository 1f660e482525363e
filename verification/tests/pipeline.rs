use strivo_plugins::crunchr::pipeline::{
    audio_file_name, chunk_segments, chunk_transcript, estimate_tokens, extraction_event,
    ffmpeg_args, normalize_text, rank_stems, split_sentences, transcription_event,
    try_word_frequencies, word_frequencies, Extraction,
};
use strivo_plugins::crunchr::transcribe::TranscriptionResult;
use strivo_plugins::crunchr::types::{PipelineEvent, Segment};
use strivo_plugins::number::Double;

fn double(x: f64) -> Double {
    Double { bits: x.to_bits() }
}

fn make_segment(index: usize, start: f64, end: f64, text: &str) -> Segment {
    Segment {
        index,
        start_sec: double(start),
        end_sec: double(end),
        text: text.to_string(),
        speaker: None,
        confidence: None,
    }
}

#[test]
fn chunk_segments_empty() {
    let chunks = chunk_segments(&[], 512);
    assert!(chunks.is_empty());
}

#[test]
fn chunk_segments_single_short() {
    let segs = vec![make_segment(0, 0.0, 5.0, "Hello world this is a test.")];
    let chunks = chunk_segments(&segs, 512);
    assert_eq!(chunks.len(), 1);
    assert!(chunks[0].text.contains("Hello"));
}

#[test]
fn chunk_segments_respects_target() {
    let mut segs = Vec::new();
    for i in 0..100 {
        let start = i as f64 * 2.0;
        segs.push(make_segment(
            i,
            start,
            start + 2.0,
            "This is a somewhat longer segment with several words in it.",
        ));
    }
    let chunks = chunk_segments(&segs, 50);
    assert!(chunks.len() > 1);

    // All text should be preserved (no data loss)
    let total_text: String = chunks.iter().map(|c| c.text.clone()).collect::<Vec<_>>().join(" ");
    assert!(total_text.contains("somewhat longer"));
}

#[test]
fn chunk_segments_remainder_preserved() {
    let segs = vec![make_segment(
        0,
        0.0,
        10.0,
        "First sentence here. Second sentence here. Third sentence here. Fourth sentence here. Fifth sentence here.",
    )];
    let chunks = chunk_segments(&segs, 10);
    let all_text: String = chunks.iter().map(|c| c.text.clone()).collect::<Vec<_>>().join(" ");
    assert!(all_text.contains("Fifth"), "Remainder text was dropped! Got: {all_text}");
}

#[test]
fn estimate_tokens_basic() {
    assert_eq!(estimate_tokens("hello world"), 3); // 2 words / 0.75 = 2.67 -> 3
    assert_eq!(estimate_tokens(""), 0);
    assert_eq!(estimate_tokens("one"), 2); // 1 / 0.75 = 1.33 -> 2
}

#[test]
fn split_sentences_multiple() {
    let result = split_sentences("Hello there. How are you? I'm fine!");
    assert_eq!(result.len(), 3);
    assert!(result[0].starts_with("Hello"));
    assert!(result[1].starts_with("How"));
    assert!(result[2].starts_with("I'm") || result[2].contains("fine"));
}

#[test]
fn split_sentences_no_punctuation() {
    let result = split_sentences("no punctuation here at all");
    assert_eq!(result.len(), 1);
}

#[test]
fn word_frequencies_basic() {
    let result = word_frequencies("hello hello world world world test");
    assert!(!result.is_empty());
    // "world" should be stemmed and have highest count
    let (top_word, top_count) = &result[0];
    assert_eq!(*top_count, 3);
    assert_eq!(top_word, "world");
}

#[test]
fn word_frequencies_filters_stopwords() {
    let result = word_frequencies("the and or but is are was");
    assert!(result.is_empty(), "Stopwords should be filtered");
}

#[test]
fn word_frequencies_empty() {
    let result = word_frequencies("");
    assert!(result.is_empty());
}

#[test]
fn normalize_text_collapses_whitespace() {
    assert_eq!(normalize_text("  hello   world  "), "hello world");
}

#[test]
fn tokens_follow_the_ratio() {
    for n in 0..200usize {
        let text = vec!["w"; n].join(" ");
        let want = ((n as f64) / 0.75).ceil() as usize;
        assert_eq!(estimate_tokens(&text), want);
    }
}

#[test]
fn sentences_keep_their_ends_and_the_rest() {
    assert_eq!(split_sentences("A. B! C? rest"), vec!["A.", "B!", "C?", "rest"]);
    assert_eq!(split_sentences("..."), vec![".", ".", "."]);
    assert_eq!(split_sentences(""), Vec::<String>::new());
    assert_eq!(split_sentences("   "), vec!["   "]);
}

#[test]
fn normalizing_twice_is_normalizing_once() {
    let once = normalize_text("\ta\u{a0}b \n c");
    assert_eq!(once, "a b c");
    assert_eq!(normalize_text(&once), once);
}

#[test]
fn chunks_keep_every_character_and_follow_each_other() {
    let texts = [
        "One two three. Four five six seven.",
        "  ",
        "Eight nine! Ten eleven twelve thirteen fourteen fifteen.",
        "Sixteen",
        "seventeen eighteen? Nineteen twenty.",
    ];
    let segs: Vec<Segment> = texts
        .iter()
        .enumerate()
        .map(|(i, t)| make_segment(i, i as f64, i as f64 + 1.0, t))
        .collect();
    for target in 1..30 {
        let chunks = chunk_segments(&segs, target);
        let said: String = texts.concat().chars().filter(|c| !c.is_whitespace()).collect();
        let kept: String = chunks
            .iter()
            .flat_map(|c| c.text.chars())
            .filter(|c| !c.is_whitespace())
            .collect();
        assert_eq!(kept, said);
        assert_eq!(chunks[0].start_sec, double(0.0));
        for pair in chunks.windows(2) {
            assert_eq!(pair[0].end_sec, pair[1].start_sec);
        }
        for c in &chunks {
            assert!(!c.text.is_empty());
            assert_eq!(normalize_text(&c.text), c.text);
        }
    }
}

#[test]
fn a_segment_over_the_limit_sends_the_held_ones_out() {
    let segs = vec![
        make_segment(0, 0.0, 1.0, "a b c"),
        make_segment(1, 1.5, 2.5, "d e f g h i j k l"),
    ];
    // 4 tokens are held, 12 more exceed six fifths of 10.
    let chunks = chunk_segments(&segs, 10);
    assert_eq!(chunks.len(), 2);
    assert_eq!(chunks[0].text, "a b c");
    assert_eq!(chunks[0].token_count, 4);
    assert_eq!(chunks[0].end_sec, double(1.5));
    assert_eq!(chunks[1].text, "d e f g h i j k l");
    assert_eq!(chunks[1].end_sec, double(2.5));
}

#[test]
fn words_are_stemmed_before_they_are_counted() {
    let result = word_frequencies("Running runs, run! jumping");
    assert_eq!(result, vec![("run".to_string(), 3), ("jump".to_string(), 1)]);
}

#[test]
fn counts_of_two_texts_add_up() {
    let (a, b) = ("World, stream world", "WORLD! streams");
    let n = |text: &str, w: &str| {
        word_frequencies(text).into_iter().find(|r| r.0 == w).map_or(0, |r| r.1)
    };
    for w in ["world", "stream", "none"] {
        assert_eq!(n(&format!("{a} {b}"), w), n(a, w) + n(b, w));
        assert_eq!(n(&format!("{b} {a}"), w), n(a, w) + n(b, w));
    }
    assert_eq!(n("World, WORLD!", "world"), 2);
}

#[test]
fn chunks_count_their_own_text() {
    let blank = vec![make_segment(0, 0.0, 1.0, " \n"), make_segment(1, 1.0, 2.0, "")];
    assert!(chunk_segments(&blank, 4).is_empty());
    let segments: Vec<Segment> = (0..9)
        .map(|i| make_segment(i, i as f64, i as f64 + 1.0, "One two. Three four five"))
        .collect();
    for target in 0..30 {
        let chunks = chunk_segments(&segments, target);
        assert!(!chunks.is_empty());
        for c in &chunks {
            assert!(c.token_count >= estimate_tokens(&c.text));
        }
    }
}

#[test]
fn ranking_counts_every_stem() {
    let stems: Vec<String> = ["b", "a", "b", "c", "a", "b"].iter().map(|s| s.to_string()).collect();
    let ranked = rank_stems(&stems);
    assert_eq!(
        ranked,
        vec![("b".to_string(), 3), ("a".to_string(), 2), ("c".to_string(), 1)]
    );
    assert_eq!(ranked.iter().map(|r| r.1).sum::<usize>(), stems.len());
}

#[test]
fn frequencies_without_a_bound_agree() {
    let text = "naïve café CAFÉ straße";
    assert_eq!(try_word_frequencies(text), Some(word_frequencies(text)));
    assert_eq!(try_word_frequencies(text).unwrap()[0].1, 2);
}

#[test]
fn extraction_is_called_and_reported() {
    assert_eq!(audio_file_name(Some("stream".to_string())), "stream.wav");
    assert_eq!(audio_file_name(None), "audio.wav");
    assert_eq!(
        ffmpeg_args("in.mkv", "out.wav"),
        vec![
            "-i", "in.mkv", "-vn", "-acodec", "pcm_s16le", "-ar", "16000", "-ac", "1", "-y",
            "out.wav"
        ]
    );
    match extraction_event(7, Extraction::Done("a.wav".to_string())) {
        PipelineEvent::AudioExtracted { recording_id, audio_path } => {
            assert_eq!(recording_id, 7);
            assert_eq!(audio_path, "a.wav");
        }
        other => panic!("{other:?}"),
    }
    match extraction_event(
        7,
        Extraction::Exited { status: "exit status: 1".to_string(), stderr: "x".repeat(300) },
    ) {
        PipelineEvent::StageError { error, .. } => {
            assert_eq!(
                error,
                format!("Audio extraction failed: ffmpeg exited with exit status: 1: {}", "x".repeat(200))
            );
        }
        other => panic!("{other:?}"),
    }
    match extraction_event(7, Extraction::Unstarted("no such file".to_string())) {
        PipelineEvent::StageError { error, .. } => {
            assert_eq!(error, "Audio extraction failed: no such file");
        }
        other => panic!("{other:?}"),
    }
}

#[test]
fn transcription_is_reported() {
    let ok = TranscriptionResult { segments: vec![], full_text: "hi".to_string() };
    match transcription_event(3, Ok(ok)) {
        PipelineEvent::TranscriptionComplete { recording_id, segments, full_text } => {
            assert_eq!(recording_id, 3);
            assert!(segments.is_empty());
            assert_eq!(full_text, "hi");
        }
        other => panic!("{other:?}"),
    }
    match transcription_event(3, Err("gone".to_string())) {
        PipelineEvent::StageError { error, .. } => assert_eq!(error, "Transcription failed: gone"),
        other => panic!("{other:?}"),
    }
}

#[test]
fn a_transcript_is_chunked_and_counted() {
    let segs = vec![
        make_segment(0, 0.0, 1.0, "Dogs chase cats."),
        make_segment(1, 1.0, 2.0, "Cats sleep."),
    ];
    match chunk_transcript(9, 42, &segs) {
        PipelineEvent::ChunkingComplete { recording_id, video_id, chunks, word_frequencies } => {
            assert_eq!(recording_id, 9);
            assert_eq!(video_id, 42);
            assert_eq!(chunks.len(), 1);
            assert_eq!(chunks[0].text, "Dogs chase cats. Cats sleep.");
            assert_eq!(chunks[0].token_count, 7);
            assert_eq!(word_frequencies[0], ("cat".to_string(), 2));
            assert_eq!(word_frequencies.len(), 4);
        }
        other => panic!("{other:?}"),
    }
}
