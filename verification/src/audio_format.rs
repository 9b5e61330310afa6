//! Magic-byte sniffing and MIME mapping for supported guest audio containers.

use vstd::prelude::*;
use crate::text::{
    chars_eq_str, chars_of, has_prefix, lemma_split_char_len, lower, lower_chars, split_char,
    split_chars, starts_with_str, trim, trim_chars,
};

verus! {

/// Unknown or not recognized as a supported Oxide audio format.
pub const AUDIO_FORMAT_UNKNOWN: u32 = 0;

/// WAV / RIFF WAVE.
pub const AUDIO_FORMAT_WAV: u32 = 1;

/// MP3 (MPEG-1/2 Audio Layer III).
pub const AUDIO_FORMAT_MP3: u32 = 2;

/// Ogg (Vorbis, Opus, etc.).
pub const AUDIO_FORMAT_OGG: u32 = 3;

/// FLAC lossless.
pub const AUDIO_FORMAT_FLAC: u32 = 4;

/// `Accept` header sent with audio URL fetches so servers can pick a codec/container.
pub const AUDIO_HTTP_ACCEPT: &'static str = "audio/wav,audio/wave,audio/x-wav;q=0.9,audio/mpeg,audio/mp3;q=0.9,audio/ogg,audio/flac,audio/*;q=0.5,*/*;q=0.1";

/// Whether `d[at..at + 4]` holds the four given bytes.
pub open spec fn tag_at(d: Seq<u8>, at: int, a: u8, b: u8, c: u8, e: u8) -> bool {
    at + 4 <= d.len() && d[at] == a && d[at + 1] == b && d[at + 2] == c && d[at + 3] == e
}

/// Offset just past an ID3v2 header (10 bytes plus the size field), or 0.
pub open spec fn id3_skip(d: Seq<u8>) -> int {
    if d.len() >= 10 && d[0] == 0x49 && d[1] == 0x44 && d[2] == 0x33 {
        10 + (((d[6] as usize) << 21usize) | ((d[7] as usize) << 14usize) | ((d[8] as usize)
            << 7usize) | (d[9] as usize)) as int
    } else {
        0
    }
}

/// An MPEG audio frame sync (11 set bits) at `off`.
pub open spec fn mp3_sync(d: Seq<u8>, off: int) -> bool {
    off + 2 <= d.len() && d[off] == 0xFF && (d[off + 1] & 0xE0) == 0xE0
}

/// The format that the leading bytes of `d` announce.
pub open spec fn sniff_spec(d: Seq<u8>) -> u32 {
    if d.len() < 4 {
        AUDIO_FORMAT_UNKNOWN
    } else if d.len() >= 12 && tag_at(d, 0, 0x52, 0x49, 0x46, 0x46) && tag_at(
        d,
        8,
        0x57,
        0x41,
        0x56,
        0x45,
    ) {
        AUDIO_FORMAT_WAV
    } else if tag_at(d, 0, 0x66, 0x4C, 0x61, 0x43) {
        AUDIO_FORMAT_FLAC
    } else if tag_at(d, 0, 0x4F, 0x67, 0x67, 0x53) {
        AUDIO_FORMAT_OGG
    } else if id3_skip(d) < d.len() && mp3_sync(d, id3_skip(d)) {
        AUDIO_FORMAT_MP3
    } else if mp3_sync(d, 0) {
        AUDIO_FORMAT_MP3
    } else {
        AUDIO_FORMAT_UNKNOWN
    }
}

/// The ID3v2 tag size is the syncsafe big-endian value of bytes 6..10
/// (seven bits each, byte 6 the most significant): the audio starts at
/// `10 + d[6]*2^21 + d[7]*2^14 + d[8]*2^7 + d[9]`.
pub proof fn law_id3_skip_is_syncsafe_size(d: Seq<u8>)
    requires
        d.len() >= 10,
        d[0] == 0x49 && d[1] == 0x44 && d[2] == 0x33,
        d[6] < 0x80 && d[7] < 0x80 && d[8] < 0x80 && d[9] < 0x80,
    ensures
        id3_skip(d) == 10 + d[6] * 2097152 + d[7] * 16384 + d[8] * 128 + d[9],
{
    let a = d[6] as usize;
    let b = d[7] as usize;
    let c = d[8] as usize;
    let e = d[9] as usize;
    assert((a << 21usize) | (b << 14usize) | (c << 7usize) | e == a * 2097152 + b * 16384 + c
        * 128 + e) by (bit_vector)
        requires
            a < 0x80,
            b < 0x80,
            c < 0x80,
            e < 0x80,
    ;
}

/// A buffer made of an ID3v2 header announcing `n` tag bytes (syncsafe),
/// the tag, and then an MPEG frame sync sniffs as MP3.
pub proof fn law_id3_tagged_mp3(d: Seq<u8>, n: int)
    requires
        d.len() >= 10,
        d[0] == 0x49 && d[1] == 0x44 && d[2] == 0x33,
        d[6] < 0x80 && d[7] < 0x80 && d[8] < 0x80 && d[9] < 0x80,
        n == d[6] * 2097152 + d[7] * 16384 + d[8] * 128 + d[9],
        10 + n + 2 <= d.len(),
        d[10 + n] == 0xFF,
        d[10 + n + 1] & 0xE0 == 0xE0,
    ensures
        sniff_spec(d) == AUDIO_FORMAT_MP3,
{
    law_id3_skip_is_syncsafe_size(d);
}

/// The container magics: `RIFF....WAVE` is WAV, `fLaC` is FLAC, `OggS` is
/// Ogg, and a buffer opening with an MPEG frame sync is MP3.
pub proof fn law_container_magic(d: Seq<u8>)
    ensures
        d.len() >= 12 && d[0] == 0x52 && d[1] == 0x49 && d[2] == 0x46 && d[3] == 0x46 && d[8]
            == 0x57 && d[9] == 0x41 && d[10] == 0x56 && d[11] == 0x45 ==> sniff_spec(d)
            == AUDIO_FORMAT_WAV,
        d.len() >= 4 && d[0] == 0x66 && d[1] == 0x4C && d[2] == 0x61 && d[3] == 0x43
            ==> sniff_spec(d) == AUDIO_FORMAT_FLAC,
        d.len() >= 4 && d[0] == 0x4F && d[1] == 0x67 && d[2] == 0x67 && d[3] == 0x53
            ==> sniff_spec(d) == AUDIO_FORMAT_OGG,
        d.len() >= 4 && d[0] == 0xFF && d[1] & 0xE0 == 0xE0 ==> sniff_spec(d) == AUDIO_FORMAT_MP3,
        d.len() < 4 ==> sniff_spec(d) == AUDIO_FORMAT_UNKNOWN,
{
}

fn skip_id3_prefix(data: &[u8]) -> (r: usize)
    ensures
        r as int == id3_skip(data@),
{
    if data.len() >= 10 && data[0] == 0x49 && data[1] == 0x44 && data[2] == 0x33 {
        let size: usize = ((data[6] as usize) << 21usize) | ((data[7] as usize) << 14usize) | ((
        data[8] as usize) << 7usize) | (data[9] as usize);
        proof {
            let a = data@[6] as usize;
            let b = data@[7] as usize;
            let c = data@[8] as usize;
            let e = data@[9] as usize;
            assert((a << 21usize) | (b << 14usize) | (c << 7usize) | e < 0x2000_0000usize)
                by (bit_vector)
                requires
                    a < 256,
                    b < 256,
                    c < 256,
                    e < 256,
            ;
        }
        10 + size
    } else {
        0
    }
}

fn mp3_sync_at(data: &[u8], offset: usize) -> (r: bool)
    ensures
        r == mp3_sync(data@, offset as int),
{
    if offset > data.len() || data.len() - offset < 2 {
        return false;
    }
    let b0 = data[offset];
    let b1 = data[offset + 1];
    (b0 == 0xFF) && ((b1 & 0xE0) == 0xE0)
}

/// Inspect leading bytes (and minimal MP3 frame sync after ID3) to guess the container/codec.
pub fn sniff_audio_format(data: &[u8]) -> (r: u32)
    ensures
        r == sniff_spec(data@),
{
    if data.len() < 4 {
        return AUDIO_FORMAT_UNKNOWN;
    }
    if data.len() >= 12 && data[0] == 0x52 && data[1] == 0x49 && data[2] == 0x46 && data[3]
        == 0x46 && data[8] == 0x57 && data[9] == 0x41 && data[10] == 0x56 && data[11] == 0x45 {
        return AUDIO_FORMAT_WAV;
    }
    if data[0] == 0x66 && data[1] == 0x4C && data[2] == 0x61 && data[3] == 0x43 {
        return AUDIO_FORMAT_FLAC;
    }
    if data[0] == 0x4F && data[1] == 0x67 && data[2] == 0x67 && data[3] == 0x53 {
        return AUDIO_FORMAT_OGG;
    }
    let off = skip_id3_prefix(data);
    if off < data.len() && mp3_sync_at(data, off) {
        return AUDIO_FORMAT_MP3;
    }
    if mp3_sync_at(data, 0) {
        return AUDIO_FORMAT_MP3;
    }
    AUDIO_FORMAT_UNKNOWN
}

/// The media type of a `Content-Type` value: the part before the first `;`,
/// trimmed and lower-cased.
pub open spec fn mime_essence(mime: Seq<char>) -> Seq<char> {
    lower(trim(split_char(mime, ';')[0]))
}

pub open spec fn mime_format_spec(mime: Seq<char>) -> u32 {
    let s = mime_essence(mime);
    if s == "audio/wav"@ || s == "audio/wave"@ || s == "audio/x-wav"@ {
        AUDIO_FORMAT_WAV
    } else if s == "audio/mpeg"@ || s == "audio/mp3"@ {
        AUDIO_FORMAT_MP3
    } else if s == "audio/ogg"@ || s == "application/ogg"@ {
        AUDIO_FORMAT_OGG
    } else if s == "audio/flac"@ || s == "audio/x-flac"@ {
        AUDIO_FORMAT_FLAC
    } else {
        AUDIO_FORMAT_UNKNOWN
    }
}

pub open spec fn non_audio_spec(mime: Seq<char>) -> bool {
    let s = mime_essence(mime);
    has_prefix(s, "text/html"@) || has_prefix(s, "text/plain"@) || has_prefix(s, "text/css"@) || s
        == "application/json"@ || s == "application/javascript"@ || has_prefix(
        s,
        "application/xml"@,
    ) || has_prefix(s, "text/"@)
}

fn mime_essence_chars(mime: &str) -> (out: Vec<char>)
    ensures
        out@ == mime_essence(mime@),
{
    let m = chars_of(mime);
    let pieces = split_chars(m.as_slice(), ';');
    proof {
        lemma_split_char_len(m@, ';');
        assert(pieces@[0]@ == split_char(m@, ';')[0]);
    }
    let t = trim_chars(pieces[0].as_slice());
    lower_chars(t.as_slice())
}

/// Map a `Content-Type` (or similar) value to an `AUDIO_FORMAT_*` constant, or [`AUDIO_FORMAT_UNKNOWN`].
pub fn mime_to_audio_format(mime: &str) -> (r: u32)
    ensures
        r == mime_format_spec(mime@),
{
    let s = mime_essence_chars(mime);
    let s = s.as_slice();
    if chars_eq_str(s, "audio/wav") || chars_eq_str(s, "audio/wave") || chars_eq_str(
        s,
        "audio/x-wav",
    ) {
        AUDIO_FORMAT_WAV
    } else if chars_eq_str(s, "audio/mpeg") || chars_eq_str(s, "audio/mp3") {
        AUDIO_FORMAT_MP3
    } else if chars_eq_str(s, "audio/ogg") || chars_eq_str(s, "application/ogg") {
        AUDIO_FORMAT_OGG
    } else if chars_eq_str(s, "audio/flac") || chars_eq_str(s, "audio/x-flac") {
        AUDIO_FORMAT_FLAC
    } else {
        AUDIO_FORMAT_UNKNOWN
    }
}

/// MIME types that usually indicate an HTML/JSON error body rather than a media stream.
pub fn is_likely_non_audio_document(mime: &str) -> (r: bool)
    ensures
        r == non_audio_spec(mime@),
{
    let s = mime_essence_chars(mime);
    let s = s.as_slice();
    starts_with_str(s, "text/html") || starts_with_str(s, "text/plain") || starts_with_str(
        s,
        "text/css",
    ) || chars_eq_str(s, "application/json") || chars_eq_str(s, "application/javascript")
        || starts_with_str(s, "application/xml") || starts_with_str(s, "text/")
}

} // verus!
