use whisper_batch::formatter::{format_json, format_segments, format_srt, format_txt, format_vtt};
use whisper_batch::types::{OutputFormat, TimedSegment};

fn seg(start: u64, end: u64, text: &str) -> TimedSegment {
    TimedSegment { start, end, text: text.to_string() }
}

fn two_segments() -> Vec<TimedSegment> {
    vec![seg(0, 150, "hello"), seg(150, 300, "world")]
}

#[test]
fn srt_two_blocks() {
    let out = format_srt(&two_segments());
    assert_eq!(
        out,
        "1\n00:00:00,000 --> 00:00:01,500\nhello\n\n2\n00:00:01,500 --> 00:00:03,000\nworld\n\n"
    );
}

#[test]
fn vtt_two_blocks() {
    let out = format_vtt(&two_segments());
    assert_eq!(
        out,
        "WEBVTT\n\n00:00:00.000 --> 00:00:01.500\nhello\n\n00:00:01.500 --> 00:00:03.000\nworld\n\n"
    );
}

#[test]
fn txt_joins_with_newlines() {
    let out = format_txt(&two_segments());
    assert_eq!(out, "hello\nworld");
}

#[test]
fn txt_empty_and_single() {
    assert_eq!(format_txt(&vec![]), "");
    assert_eq!(format_txt(&vec![seg(0, 10, "only")]), "only");
}

#[test]
fn json_two_segments() {
    let out = format_json(&two_segments());
    assert_eq!(
        out,
        "{\"segments\":[{\"id\":0,\"start\":0.0,\"end\":1.5,\"text\":\"hello\"},{\"id\":1,\"start\":1.5,\"end\":3.0,\"text\":\"world\"}]}"
    );
}

#[test]
fn json_empty() {
    assert_eq!(format_json(&vec![]), "{\"segments\":[]}");
}

#[test]
fn json_seconds_fractions() {
    let out = format_json(&vec![seg(105, 330, "x")]);
    assert_eq!(out, "{\"segments\":[{\"id\":0,\"start\":1.05,\"end\":3.3,\"text\":\"x\"}]}");
}

#[test]
fn json_escapes_specials() {
    let out = format_json(&vec![seg(0, 1, "a\"b\\c\nd\te\u{1}f")]);
    assert_eq!(
        out,
        "{\"segments\":[{\"id\":0,\"start\":0.0,\"end\":0.01,\"text\":\"a\\\"b\\\\c\\nd\\te\\u0001f\"}]}"
    );
}

#[test]
fn json_output_parses_with_serde() {
    let out = format_json(&vec![seg(0, 150, "he\"llo\n"), seg(150, 300, "wörld")]);
    let v: serde_json::Value = serde_json::from_str(&out).expect("valid JSON");
    let segs = v["segments"].as_array().unwrap();
    assert_eq!(segs.len(), 2);
    assert_eq!(segs[0]["id"], 0);
    assert_eq!(segs[0]["start"], 0.0);
    assert_eq!(segs[0]["end"], 1.5);
    assert_eq!(segs[0]["text"], "he\"llo\n");
    assert_eq!(segs[1]["text"], "wörld");
    assert_eq!(segs[1]["start"], 1.5);
    assert_eq!(segs[1]["end"], 3.0);
}

#[test]
fn timestamps_past_an_hour() {
    let out = format_srt(&vec![seg(366345, 366345, "t")]);
    assert_eq!(out, "1\n01:01:03,450 --> 01:01:03,450\nt\n\n");
}

#[test]
fn format_segments_dispatches() {
    let segs = two_segments();
    assert_eq!(format_segments(&segs, &OutputFormat::Txt), format_txt(&segs));
    assert_eq!(format_segments(&segs, &OutputFormat::Srt), format_srt(&segs));
    assert_eq!(format_segments(&segs, &OutputFormat::Vtt), format_vtt(&segs));
    assert_eq!(format_segments(&segs, &OutputFormat::Json), format_json(&segs));
}

#[test]
fn unicode_text_passes_through_subtitles() {
    let out = format_srt(&vec![seg(0, 100, "héllo wörld")]);
    assert!(out.contains("héllo wörld"));
}
