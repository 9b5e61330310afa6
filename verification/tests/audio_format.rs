use oxide_browser::audio_format::{
    is_likely_non_audio_document, mime_to_audio_format, sniff_audio_format, AUDIO_FORMAT_FLAC,
    AUDIO_FORMAT_MP3, AUDIO_FORMAT_OGG, AUDIO_FORMAT_UNKNOWN, AUDIO_FORMAT_WAV,
};

#[test]
fn sniff_wav() {
    let mut b = vec![0u8; 12];
    b[0..4].copy_from_slice(b"RIFF");
    b[8..12].copy_from_slice(b"WAVE");
    assert_eq!(sniff_audio_format(&b), AUDIO_FORMAT_WAV);
}

#[test]
fn sniff_flac() {
    assert_eq!(sniff_audio_format(b"fLaCxxxx"), AUDIO_FORMAT_FLAC);
}

#[test]
fn sniff_ogg() {
    assert_eq!(sniff_audio_format(b"OggSxxxx"), AUDIO_FORMAT_OGG);
}

#[test]
fn sniff_mp3_sync() {
    let b = [0xFF, 0xFB, 0x90, 0x00];
    assert_eq!(sniff_audio_format(&b), AUDIO_FORMAT_MP3);
}

#[test]
fn mime_maps() {
    assert_eq!(mime_to_audio_format("audio/mpeg"), AUDIO_FORMAT_MP3);
    assert_eq!(
        mime_to_audio_format("audio/ogg; codecs=vorbis"),
        AUDIO_FORMAT_OGG
    );
    assert!(is_likely_non_audio_document("text/html; charset=utf-8"));
}

#[test]
fn sniff_short_or_unknown_data() {
    assert_eq!(sniff_audio_format(b""), AUDIO_FORMAT_UNKNOWN);
    assert_eq!(sniff_audio_format(b"RIFF"), AUDIO_FORMAT_UNKNOWN);
    assert_eq!(sniff_audio_format(b"hello world"), AUDIO_FORMAT_UNKNOWN);
}

#[test]
fn sniff_mp3_after_id3_tag() {
    // "ID3", version, flags, then a syncsafe size of 0, then an MPEG frame sync.
    let b = [b'I', b'D', b'3', 4, 0, 0, 0, 0, 0, 0, 0xFF, 0xFB, 0x90, 0x00];
    assert_eq!(sniff_audio_format(&b), AUDIO_FORMAT_MP3);
}

#[test]
fn mime_unknown_and_documents() {
    assert_eq!(mime_to_audio_format("video/mp4"), AUDIO_FORMAT_UNKNOWN);
    assert_eq!(mime_to_audio_format("AUDIO/WAV"), AUDIO_FORMAT_WAV);
    assert!(!is_likely_non_audio_document("audio/mpeg"));
}
