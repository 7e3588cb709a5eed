use cadmus::transcript::{
    assemble_transcript, detect_language_from_chunks, parse_segments, RawSegment,
};

/// Seconds of a timestamp mark in chunk `chunk`: the chunk's 30 s offset
/// plus the token's value (a missing mark is the start of the chunk).
fn seconds(chunk: usize, mark: &Option<String>) -> f32 {
    let within = match mark {
        Some(t) => t.parse::<f32>().expect("timestamp marks are float literals"),
        None => 0.0,
    };
    chunk as f32 * 30.0 + within
}

fn start(seg: &RawSegment) -> f32 {
    seconds(seg.chunk, &seg.start)
}

fn end(seg: &RawSegment) -> f32 {
    seconds(seg.chunk, &seg.end)
}

#[test]
fn parse_segments_two_segments_one_chunk() {
    let chunks = vec!["<|0.00|> Hello.<|2.50|> World.<|5.00|>".to_string()];
    let segs = parse_segments(&chunks);
    assert_eq!(segs.len(), 2);
    assert_eq!(start(&segs[0]), 0.0);
    assert_eq!(end(&segs[0]), 2.5);
    assert!(segs[0].text.contains("Hello"));
    assert_eq!(start(&segs[1]), 2.5);
    assert_eq!(end(&segs[1]), 5.0);
    assert!(segs[1].text.contains("World"));
}

#[test]
fn parse_segments_two_chunks_offsets_correctly() {
    let chunks = vec![
        "<|0.00|> First.<|10.00|>".to_string(),
        "<|0.00|> Second.<|5.00|>".to_string(),
    ];
    let segs = parse_segments(&chunks);
    assert_eq!(segs.len(), 2);
    assert_eq!(start(&segs[0]), 0.0);
    assert_eq!(end(&segs[0]), 10.0);
    assert_eq!(start(&segs[1]), 30.0);
    assert_eq!(end(&segs[1]), 35.0);
}

#[test]
fn parse_segments_no_timestamps_emits_text_at_zero() {
    let chunks = vec!["just text, no tokens".to_string()];
    let segs = parse_segments(&chunks);
    assert_eq!(segs.len(), 1);
    assert_eq!(start(&segs[0]), 0.0);
    assert_eq!(end(&segs[0]), 0.0);
    assert!(segs[0].text.contains("just text"));
}

#[test]
fn parse_segments_drops_control_tokens_keeps_utf8_text() {
    let chunks = vec!["<|de|><|transcribe|><|0.00|> grüß dich.<|1.20|>".to_string()];
    let segs = parse_segments(&chunks);
    assert_eq!(segs.len(), 1);
    assert!(segs[0].text.contains("grüß"), "umlaut lost: {:?}", segs[0].text);
}

#[test]
fn parse_segments_malformed_token_treated_as_text() {
    let chunks = vec!["<|0.00|> ok <| not a token <|1.00|>".to_string()];
    let segs = parse_segments(&chunks);
    assert_eq!(segs.len(), 1);
    assert!(segs[0].text.contains("ok"));
}

#[test]
fn detect_language_from_chunks_finds_two_letter_token() {
    let chunks = vec!["<|de|><|transcribe|><|0.00|> hallo welt<|2.50|>".to_string()];
    assert_eq!(detect_language_from_chunks(&chunks), Some("de".to_string()));
}

#[test]
fn detect_language_from_chunks_skips_control_and_timestamp_tokens() {
    let chunks = vec!["<|transcribe|><|0.00|> just text<|1.00|>".to_string()];
    assert_eq!(detect_language_from_chunks(&chunks), None);
}

#[test]
fn detect_language_from_chunks_empty_input_returns_none() {
    let chunks: Vec<String> = vec![];
    assert_eq!(detect_language_from_chunks(&chunks), None);
}

#[test]
fn segment_text_is_kept_verbatim_with_leading_space() {
    let chunks = vec!["<|0.00|> Hello.<|2.50|>".to_string()];
    let segs = parse_segments(&chunks);
    assert_eq!(segs[0].text, " Hello.");
    assert_eq!(segs[0].start.as_deref(), Some("0.00"));
    assert_eq!(segs[0].end.as_deref(), Some("2.50"));
    assert_eq!(segs[0].chunk, 0);
}

#[test]
fn blank_text_between_timestamps_is_dropped() {
    let chunks = vec!["<|0.00|>   <|1.00|> a<|2.00|>\t\n".to_string()];
    let segs = parse_segments(&chunks);
    assert_eq!(segs.len(), 1);
    assert_eq!(segs[0].text, " a");
    assert_eq!(start(&segs[0]), 1.0);
    assert_eq!(end(&segs[0]), 2.0);
}

#[test]
fn trailing_text_after_last_timestamp_starts_and_ends_there() {
    let chunks = vec!["<|0.00|> a<|1.50|> tail".to_string()];
    let segs = parse_segments(&chunks);
    assert_eq!(segs.len(), 2);
    assert_eq!(segs[1].text, " tail");
    assert_eq!(start(&segs[1]), 1.5);
    assert_eq!(end(&segs[1]), 1.5);
}

#[test]
fn float_literal_forms_count_as_timestamps() {
    // "1e1", "+2.", ".5" and "INF" parse as f32; "de" and "1.2.3" do not.
    let chunks = vec!["<|1e1|> a<|+2.|> b<|.5|> c<|1.2.3|> d<|INF|>".to_string()];
    let segs = parse_segments(&chunks);
    let texts: Vec<&str> = segs.iter().map(|s| s.text.as_str()).collect();
    assert_eq!(texts, vec![" a", " b", " c d"]);
    assert_eq!(segs[2].start.as_deref(), Some(".5"));
    assert_eq!(segs[2].end.as_deref(), Some("INF"));
    for s in &segs {
        for m in [&s.start, &s.end] {
            if let Some(t) = m {
                assert!(t.parse::<f32>().is_ok(), "{t:?} should parse");
            }
        }
    }
}

#[test]
fn non_timestamp_tokens_are_not_float_literals() {
    let chunks = vec!["<|de|> a<|e5|> b<|1e|> c<|-|> d<|nan|>".to_string()];
    let segs = parse_segments(&chunks);
    assert_eq!(segs.len(), 1);
    assert_eq!(segs[0].text, " a b c d");
    assert_eq!(segs[0].start, None);
    assert_eq!(segs[0].end.as_deref(), Some("nan"));
}

#[test]
fn transcript_text_is_segments_joined_verbatim() {
    let chunks = vec![
        "<|0.00|> Eins,<|1.00|> zwei,<|2.00|>".to_string(),
        "<|0.00|> drei.<|1.00|>".to_string(),
    ];
    let t = assemble_transcript(&chunks, Some("de".to_string()));
    assert_eq!(t.text, " Eins, zwei, drei.");
    let joined: String = t.segments.iter().map(|s| s.text.as_str()).collect();
    assert_eq!(t.text, joined);
    assert_eq!(t.language, "de");
    assert_eq!(t.segments.len(), 3);
    assert_eq!(start(&t.segments[2]), 30.0);
}

#[test]
fn transcript_language_falls_back_to_detected_then_empty() {
    let with_token = vec!["<|en|><|0.00|> hi<|1.00|>".to_string()];
    assert_eq!(assemble_transcript(&with_token, None).language, "en");
    let without = vec!["<|0.00|> hi<|1.00|>".to_string()];
    assert_eq!(assemble_transcript(&without, None).language, "");
    assert_eq!(assemble_transcript(&with_token, Some("fr".to_string())).language, "fr");
}

#[test]
fn language_tokens_are_two_or_three_lowercase_letters() {
    let three = vec!["<|haw|> aloha".to_string()];
    assert_eq!(detect_language_from_chunks(&three), Some("haw".to_string()));
    let upper = vec!["<|DE|><|x|><|abcd|><|fr|>".to_string()];
    assert_eq!(detect_language_from_chunks(&upper), Some("fr".to_string()));
    let second_chunk_only = vec!["text".to_string(), "<|de|>".to_string()];
    assert_eq!(detect_language_from_chunks(&second_chunk_only), None);
}
