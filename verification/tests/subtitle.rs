use oxide_browser::subtitle::{cue_text_at, parse_srt, parse_vtt};

#[test]
fn srt_parses_numbered_blocks() {
    let data = "1\n00:00:01,000 --> 00:00:02,500\nHello\n\n2\n00:00:03,000 --> 00:00:04,000\nTwo\nlines\n";
    let cues = parse_srt(data);
    assert_eq!(cues.len(), 2);
    assert_eq!((cues[0].start_ms, cues[0].end_ms), (1000, 2500));
    assert_eq!(cues[0].text, "Hello");
    assert_eq!((cues[1].start_ms, cues[1].end_ms), (3000, 4000));
    assert_eq!(cues[1].text, "Two\nlines");
}

#[test]
fn srt_skips_bad_blocks_and_settings() {
    let data = "1\nnot a time\ntext\n\n00:01:00.100 --> 00:01:01.200 align:start\nNo index\n\n3\n00:00:01,000 --> 00:00:02,000\n";
    let cues = parse_srt(data);
    assert_eq!(cues.len(), 1);
    assert_eq!(cues[0].start_ms, 60_100);
    assert_eq!(cues[0].end_ms, 61_200);
    assert_eq!(cues[0].text, "No index");
}

#[test]
fn vtt_parses_header_ids_and_settings() {
    let data = "WEBVTT\n\nintro\n00:00:00.500 --> 00:00:01.000 line:0\nHi there\n\n00:00:02.000 --> 00:00:03.000\nBye\n";
    let cues = parse_vtt(data);
    assert_eq!(cues.len(), 2);
    assert_eq!((cues[0].start_ms, cues[0].end_ms), (500, 1000));
    assert_eq!(cues[0].text, "Hi there");
    assert_eq!(cues[1].text, "Bye");
}

#[test]
fn vtt_needs_hours() {
    // Only `hh:mm:ss.mmm` timestamps are understood.
    let cues = parse_vtt("WEBVTT\n\n00:01.000 --> 00:02.000\nShort form\n");
    assert!(cues.is_empty());
}

#[test]
fn cue_lookup_is_inclusive() {
    let cues = parse_srt("1\n00:00:01,000 --> 00:00:02,000\nA\n\n2\n00:00:02,000 --> 00:00:03,000\nB\n");
    assert_eq!(cue_text_at(&cues, 999), None);
    assert_eq!(cue_text_at(&cues, 1000), Some("A"));
    assert_eq!(cue_text_at(&cues, 2000), Some("A"));
    assert_eq!(cue_text_at(&cues, 2500), Some("B"));
    assert_eq!(cue_text_at(&cues, 3001), None);
}
