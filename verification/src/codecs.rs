//! Hashing, Base64, image decoding and console lines offered to guests.
//!
//! The digests, encodings and decoders come from the `sha2`, `base64` and
//! `image` crates; this module decides what a guest gets back: how much of
//! a reply fits its buffer, which images are refused, and what the console
//! records.

use vstd::prelude::*;
use crate::guest_api::copy_len;
use crate::text::{append_chars, append_str, dec, dec_padded, string_of, u64_to_dec, u64_to_dec_padded};

verus! {

/// The SHA-256 digest of `data`.
pub uninterp spec fn sha256_digest(data: Seq<u8>) -> Seq<u8>;

/// The character of a 6-bit value in the standard Base64 alphabet
/// (`A`-`Z`, `a`-`z`, `0`-`9`, `+`, `/`).
pub open spec fn base64_char(v: int) -> char {
    if v < 26 {
        ((65 + v) as u32) as char
    } else if v < 52 {
        ((97 + v - 26) as u32) as char
    } else if v < 62 {
        ((48 + v - 52) as u32) as char
    } else if v == 62 {
        '+'
    } else {
        '/'
    }
}

/// The Base64 text of `data` in the standard alphabet with padding (RFC
/// 4648): each group of three bytes gives four characters of six bits
/// each; a last group of one or two bytes is padded with `=`.
pub open spec fn base64_standard(data: Seq<u8>) -> Seq<char>
    decreases data.len(),
{
    if data.len() == 0 {
        Seq::empty()
    } else if data.len() == 1 {
        seq![base64_char(data[0] as int / 4), base64_char((data[0] % 4) * 16), '=', '=']
    } else if data.len() == 2 {
        seq![
            base64_char(data[0] as int / 4),
            base64_char((data[0] % 4) * 16 + data[1] / 16),
            base64_char((data[1] % 16) * 4),
            '=',
        ]
    } else {
        seq![
            base64_char(data[0] as int / 4),
            base64_char((data[0] % 4) * 16 + data[1] / 16),
            base64_char((data[1] % 16) * 4 + data[2] / 64),
            base64_char(data[2] as int % 64),
        ] + base64_standard(data.skip(3))
    }
}

/// The bytes that standard, padded Base64 text `text` spells, or `None`
/// when `text` is not such text. The standard engine decodes only
/// canonical text (padding required, no stray trailing bits), so a text
/// decodes exactly when it is the encoding of some bytes, and then to
/// those bytes (encoding is one-to-one: [`lemma_base64_injective`]).
pub open spec fn base64_standard_decoded(text: Seq<char>) -> Option<Seq<u8>> {
    if exists|b: Seq<u8>| base64_standard(b) == text {
        Some(choose|b: Seq<u8>| base64_standard(b) == text)
    } else {
        None
    }
}

proof fn lemma_base64_char(v: int, w: int)
    requires
        0 <= v < 64,
        0 <= w < 64,
    ensures
        base64_char(v) != '=',
        base64_char(v) == base64_char(w) ==> v == w,
{
    let cv = base64_char(v);
    let cw = base64_char(w);
    if v < 26 {
        assert(cv as u32 == 65 + v);
    } else if v < 52 {
        assert(cv as u32 == 97 + v - 26);
    } else if v < 62 {
        assert(cv as u32 == 48 + v - 52);
    }
    if w < 26 {
        assert(cw as u32 == 65 + w);
    } else if w < 52 {
        assert(cw as u32 == 97 + w - 26);
    } else if w < 62 {
        assert(cw as u32 == 48 + w - 52);
    }
    if cv == cw {
        assert(cv as u32 == cw as u32);
    }
}

proof fn lemma_base64_len(d: Seq<u8>)
    ensures
        d.len() == 0 <==> base64_standard(d).len() == 0,
        d.len() > 0 ==> base64_standard(d).len() >= 4,
    decreases d.len(),
{
    if d.len() >= 3 {
        lemma_base64_len(d.skip(3));
    }
}

proof fn lemma_bytes_from_sextets(d0: u8, d1: u8, e0: u8, e1: u8)
    requires
        d0 / 4 == e0 / 4,
        (d0 % 4) * 16 + d1 / 16 == (e0 % 4) * 16 + e1 / 16,
    ensures
        d0 == e0,
        d1 / 16 == e1 / 16,
{
    assert(d0 % 4 == e0 % 4 && d1 / 16 == e1 / 16) by (nonlinear_arith)
        requires
            (d0 % 4) * 16 + d1 / 16 == (e0 % 4) * 16 + e1 / 16,
            0 <= d1 / 16 < 16,
            0 <= e1 / 16 < 16,
            0 <= d0 % 4 < 4,
            0 <= e0 % 4 < 4,
    ;
    assert(d0 == e0) by (nonlinear_arith)
        requires
            d0 / 4 == e0 / 4,
            d0 % 4 == e0 % 4,
    ;
}

/// Base64 encoding is one-to-one.
pub proof fn lemma_base64_injective(b1: Seq<u8>, b2: Seq<u8>)
    requires
        base64_standard(b1) == base64_standard(b2),
    ensures
        b1 == b2,
    decreases b1.len(),
{
    let t = base64_standard(b1);
    lemma_base64_len(b1);
    lemma_base64_len(b2);
    if b1.len() == 0 || b2.len() == 0 {
        assert(b1.len() == 0 && b2.len() == 0);
        assert(b1 =~= b2);
        return;
    }
    let (x0, y0) = (b1[0], b2[0]);
    // The first four characters of both encodings agree.
    assert(t[0] == base64_char(x0 as int / 4) && t[0] == base64_char(y0 as int / 4));
    lemma_base64_char(x0 as int / 4, y0 as int / 4);
    if b1.len() >= 2 && b2.len() >= 2 {
        let (x1, y1) = (b1[1], b2[1]);
        assert(t[1] == base64_char((x0 % 4) * 16 + x1 / 16));
        assert(t[1] == base64_char((y0 % 4) * 16 + y1 / 16));
        lemma_base64_char((x0 % 4) * 16 + x1 / 16, (y0 % 4) * 16 + y1 / 16);
        lemma_bytes_from_sextets(x0, x1, y0, y1);
    }
    if b1.len() == 1 {
        assert(t[2] == '=');
        if b2.len() >= 2 {
            let v = if b2.len() == 2 { (b2[1] % 16) * 4 } else { (b2[1] % 16) * 4 + b2[2] / 64 };
            assert(t[2] == base64_char(v));
            lemma_base64_char(v, v);
        } else {
            assert(t[1] == base64_char((x0 % 4) * 16) && t[1] == base64_char((y0 % 4) * 16));
            lemma_base64_char((x0 % 4) * 16, (y0 % 4) * 16);
            assert(x0 == y0) by (nonlinear_arith)
                requires
                    x0 / 4 == y0 / 4,
                    (x0 % 4) * 16 == (y0 % 4) * 16,
            ;
            assert(b1 =~= b2);
        }
        return;
    }
    if b2.len() == 1 {
        assert(t[2] == '=');
        let v = if b1.len() == 2 { (b1[1] % 16) * 4 } else { (b1[1] % 16) * 4 + b1[2] / 64 };
        assert(t[2] == base64_char(v));
        lemma_base64_char(v, v);
        return;
    }
    let (x1, y1) = (b1[1], b2[1]);
    if b1.len() == 2 || b2.len() == 2 {
        assert(b1.len() == 2 && b2.len() == 2) by {
            if b1.len() == 2 && b2.len() > 2 {
                assert(t[3] == '=');
                assert(t[3] == base64_char(b2[2] as int % 64));
                lemma_base64_char(b2[2] as int % 64, 0);
            }
            if b2.len() == 2 && b1.len() > 2 {
                assert(t[3] == '=');
                assert(t[3] == base64_char(b1[2] as int % 64));
                lemma_base64_char(b1[2] as int % 64, 0);
            }
        }
        assert(t[2] == base64_char((x1 % 16) * 4) && t[2] == base64_char((y1 % 16) * 4));
        lemma_base64_char((x1 % 16) * 4, (y1 % 16) * 4);
        assert(x1 == y1) by (nonlinear_arith)
            requires
                x1 / 16 == y1 / 16,
                (x1 % 16) * 4 == (y1 % 16) * 4,
        ;
        assert(b1 =~= b2);
        return;
    }
    let (x2, y2) = (b1[2], b2[2]);
    assert(t[2] == base64_char((x1 % 16) * 4 + x2 / 64));
    assert(t[2] == base64_char((y1 % 16) * 4 + y2 / 64));
    lemma_base64_char((x1 % 16) * 4 + x2 / 64, (y1 % 16) * 4 + y2 / 64);
    assert(t[3] == base64_char(x2 as int % 64) && t[3] == base64_char(y2 as int % 64));
    lemma_base64_char(x2 as int % 64, y2 as int % 64);
    assert(x1 == y1 && x2 == y2) by (nonlinear_arith)
        requires
            x1 / 16 == y1 / 16,
            (x1 % 16) * 4 + x2 / 64 == (y1 % 16) * 4 + y2 / 64,
            x2 % 64 == y2 % 64,
            0 <= x2 / 64 < 4,
            0 <= y2 / 64 < 4,
    ;
    let r1 = b1.skip(3);
    let r2 = b2.skip(3);
    assert(base64_standard(r1) =~= t.skip(4));
    assert(base64_standard(r2) =~= t.skip(4));
    lemma_base64_injective(r1, r2);
    assert(b1 =~= seq![x0, x1, x2] + r1);
    assert(b2 =~= seq![y0, y1, y2] + r2);
}

/// Decoding the standard Base64 text of any bytes gives those bytes back.
pub proof fn law_base64_roundtrip(b: Seq<u8>)
    ensures
        base64_standard_decoded(base64_standard(b)) == Some(b),
{
    let c = choose|c: Seq<u8>| base64_standard(c) == base64_standard(b);
    lemma_base64_injective(c, b);
}

/// What `image::load_from_memory` makes of `bytes`: `None` when it decodes
/// an image, else the text of the error.
pub uninterp spec fn image_load_error(bytes: Seq<u8>) -> Option<Seq<char>>;

/// The width and height of the image `image::load_from_memory` decodes
/// from `bytes`.
pub uninterp spec fn image_dims(bytes: Seq<u8>) -> (u32, u32);

/// The RGBA8 copy (`DynamicImage::to_rgba8`) of the image decoded from
/// `bytes`: its width, height and raw pixel bytes.
pub uninterp spec fn image_rgba(bytes: Seq<u8>) -> (u32, u32, Seq<u8>);

/// `sha2::Sha256::digest(data)`: 32 bytes.
#[verifier::external_body]
fn sha256_bytes(data: &[u8]) -> (r: Vec<u8>)
    ensures
        r@ == sha256_digest(data@),
        r@.len() == 32,
{
    <sha2::Sha256 as sha2::Digest>::digest(data).to_vec()
}

/// `base64::engine::general_purpose::STANDARD.encode(data)`.
#[verifier::external_body]
fn base64_encode_standard(data: &[u8]) -> (r: String)
    requires
        data@.len() <= usize::MAX / 2,
    ensures
        r@ == base64_standard(data@),
{
    base64::Engine::encode(&base64::engine::general_purpose::STANDARD, data)
}

/// `base64::engine::general_purpose::STANDARD.decode(text)`, the error
/// dropped.
#[verifier::external_body]
fn base64_decode_standard(text: &str) -> (r: Option<Vec<u8>>)
    ensures
        match r {
            Some(b) => base64_standard_decoded(text@) == Some(b@),
            None => base64_standard_decoded(text@) is None,
        },
{
    base64::Engine::decode(&base64::engine::general_purpose::STANDARD, text).ok()
}

/// `image::load_from_memory(bytes)` read as the decoded image's
/// dimensions (`GenericImageView::dimensions`), an error turned into its
/// message.
#[verifier::external_body]
fn image_dimensions_of(bytes: &[u8]) -> (r: Result<(u32, u32), String>)
    ensures
        match r {
            Ok(d) => image_load_error(bytes@) is None && d == image_dims(bytes@),
            Err(e) => image_load_error(bytes@) == Some(e@),
        },
{
    match image::load_from_memory(bytes) {
        Ok(img) => Ok(image::GenericImageView::dimensions(&img)),
        Err(e) => Err(e.to_string()),
    }
}

/// `image::load_from_memory(bytes)` converted with `DynamicImage::to_rgba8`,
/// read as width, height and raw bytes; `None` when the bytes do not
/// decode. The conversion keeps the image's dimensions.
#[verifier::external_body]
fn image_rgba_of(bytes: &[u8]) -> (r: Option<(u32, u32, Vec<u8>)>)
    ensures
        r is Some <==> image_load_error(bytes@) is None,
        r matches Some(t) ==> (t.0, t.1, t.2@) == image_rgba(bytes@) && (t.0, t.1) == image_dims(
            bytes@,
        ),
{
    let rgba = image::load_from_memory(bytes).ok()?.to_rgba8();
    Some((rgba.width(), rgba.height(), rgba.into_raw()))
}

/// The digest a guest's `hash_sha256` receives.
pub fn hash_sha256(data: &[u8]) -> (r: Vec<u8>)
    ensures
        r@ == sha256_digest(data@),
        r@.len() == 32,
{
    sha256_bytes(data)
}

/// The part of the Base64 text of `data` that fits a guest buffer of `cap`
/// bytes.
pub fn base64_encode_reply(data: &[u8], cap: u32) -> (r: Vec<u8>)
    requires
        data@.len() <= usize::MAX / 2,
    ensures
        r@ == vstd::utf8::encode_utf8(base64_standard(data@)).take(
            if vstd::utf8::encode_utf8(base64_standard(data@)).len() <= cap {
                vstd::utf8::encode_utf8(base64_standard(data@)).len() as int
            } else {
                cap as int
            },
        ),
{
    let text = base64_encode_standard(data);
    let bytes = text.as_str().as_bytes();
    let n = copy_len(bytes.len(), cap);
    crate::text::slice_bytes(bytes, 0, n)
}

/// The part of the bytes Base64 text `text` spells that fits a guest
/// buffer of `cap` bytes; nothing when `text` is not Base64.
pub fn base64_decode_reply(text: &str, cap: u32) -> (r: Vec<u8>)
    ensures
        match base64_standard_decoded(text@) {
            Some(b) => r@ == b.take(
                if b.len() <= cap {
                    b.len() as int
                } else {
                    cap as int
                },
            ),
            None => r@.len() == 0,
        },
{
    match base64_decode_standard(text) {
        Some(b) => {
            let n = copy_len(b.len(), cap);
            crate::text::slice_bytes(b.as_slice(), 0, n)
        },
        None => Vec::new(),
    }
}

/// Largest image a guest may draw, in pixels (4096 x 4096).
pub const MAX_IMAGE_PIXELS: u32 = 16777216;

/// An image decoded to RGBA8 pixels for the canvas.
#[derive(Clone, Debug)]
pub struct DecodedImage {
    pub width: u32,
    pub height: u32,
    pub pixels: Vec<u8>,
}

/// Why an image handed to the canvas is not drawn.
pub enum ImageRefusal {
    /// The bytes are no image the decoder knows; the message says why.
    Undecodable(String),
    /// The image has more than [`MAX_IMAGE_PIXELS`] pixels.
    TooLarge(u32, u32),
}

impl ImageRefusal {
    /// The console line logged for the refusal.
    pub fn message(&self) -> (r: String)
        ensures
            r@ == (match self {
                ImageRefusal::Undecodable(e) => "[IMAGE] Failed to decode: "@ + e@,
                ImageRefusal::TooLarge(w, h) => "[IMAGE] Rejected: "@ + dec(*w as nat) + "x"@
                    + dec(*h as nat) + " exceeds maximum of 16777216 pixels"@,
            }),
    {
        let mut out: Vec<char> = Vec::new();
        match self {
            ImageRefusal::Undecodable(e) => {
                append_str(&mut out, "[IMAGE] Failed to decode: ");
                append_str(&mut out, e.as_str());
            },
            ImageRefusal::TooLarge(w, h) => {
                append_str(&mut out, "[IMAGE] Rejected: ");
                let a = u64_to_dec(*w as u64);
                append_chars(&mut out, a.as_slice());
                append_str(&mut out, "x");
                let b = u64_to_dec(*h as u64);
                append_chars(&mut out, b.as_slice());
                append_str(&mut out, " exceeds maximum of 16777216 pixels");
            },
        }
        string_of(out.as_slice())
    }
}

/// RGBA pixels with red and blue exchanged in every whole 4-byte pixel
/// (the order the window system draws); trailing bytes stay as they are.
pub open spec fn swap_red_blue(px: Seq<u8>) -> Seq<u8> {
    Seq::new(
        px.len(),
        |k: int|
            if k < px.len() / 4 * 4 && k % 4 == 0 {
                px[k + 2]
            } else if k < px.len() / 4 * 4 && k % 4 == 2 {
                px[k - 2]
            } else {
                px[k]
            },
    )
}

pub fn rgba_to_bgra(pixels: Vec<u8>) -> (r: Vec<u8>)
    ensures
        r@ == swap_red_blue(pixels@),
{
    let mut px = pixels;
    let ghost orig = px@;
    let len = px.len();
    let n = len / 4;
    let mut i: usize = 0;
    while i < n
        invariant
            n == orig.len() / 4,
            len == orig.len(),
            i <= n,
            px@.len() == orig.len(),
            forall|k: int| 0 <= k < i * 4 ==> px@[k] == swap_red_blue(orig)[k],
            forall|k: int| i * 4 <= k < orig.len() ==> px@[k] == orig[k],
        decreases n - i,
    {
        assert(i * 4 + 3 < orig.len()) by (nonlinear_arith)
            requires
                i < n,
                n == orig.len() / 4,
        ;
        let r = px[i * 4];
        let b = px[i * 4 + 2];
        px.set(i * 4, b);
        px.set(i * 4 + 2, r);
        proof {
            assert forall|k: int| 0 <= k < (i + 1) * 4 implies px@[k] == swap_red_blue(orig)[k] by {
                if k >= i * 4 {
                    let j = k - i * 4;
                    assert(k % 4 == j && k < orig.len() / 4 * 4) by (nonlinear_arith)
                        requires
                            k == i * 4 + j,
                            0 <= j < 4,
                            i < n,
                            n == orig.len() / 4,
                    ;
                }
            }
        }
        i = i + 1;
    }
    proof {
        assert forall|k: int| 0 <= k < orig.len() implies px@[k] == swap_red_blue(orig)[k] by {
            if k >= n * 4 {
                assert(k >= orig.len() / 4 * 4);
            }
        }
        assert(px@ =~= swap_red_blue(orig));
    }
    px
}

/// Exchanging red and blue twice gives the pixels back.
pub proof fn law_swap_red_blue_twice(px: Seq<u8>)
    ensures
        swap_red_blue(swap_red_blue(px)) == px,
{
    let once = swap_red_blue(px);
    assert forall|k: int| 0 <= k < px.len() implies swap_red_blue(once)[k] == px[k] by {
        let m = px.len() / 4 * 4;
        if k < m && k % 4 == 0 {
            assert((k + 2) % 4 == 2 && k + 2 < m) by (nonlinear_arith)
                requires
                    k % 4 == 0,
                    k < m,
                    m % 4 == 0,
                    0 <= k,
            ;
        } else if k < m && k % 4 == 2 {
            assert((k - 2) % 4 == 0 && 0 <= k - 2) by (nonlinear_arith)
                requires
                    k % 4 == 2,
                    0 <= k,
            ;
        }
    }
    assert(swap_red_blue(once) =~= px);
}

/// Camera pixels, three bytes per pixel (red, green, blue), as RGBA with
/// every pixel opaque.
pub open spec fn rgba_of_rgb(rgb: Seq<u8>) -> Seq<u8> {
    Seq::new(
        (rgb.len() / 3 * 4) as nat,
        |k: int|
            if k % 4 == 3 {
                255u8
            } else {
                rgb[k / 4 * 3 + k % 4]
            },
    )
}

pub fn rgb_to_rgba(rgb: &[u8]) -> (r: Vec<u8>)
    requires
        rgb@.len() / 3 * 4 <= usize::MAX,
    ensures
        r@ == rgba_of_rgb(rgb@),
{
    let n = rgb.len() / 3;
    let mut out: Vec<u8> = Vec::new();
    let mut i: usize = 0;
    while i < n
        invariant
            n == rgb@.len() / 3,
            i <= n,
            n * 4 <= usize::MAX,
            out@.len() == i * 4,
            forall|k: int| 0 <= k < i * 4 ==> out@[k] == rgba_of_rgb(rgb@)[k],
        decreases n - i,
    {
        assert(i * 3 + 2 < rgb@.len()) by (nonlinear_arith)
            requires
                i < n,
                n == rgb@.len() / 3,
        ;
        out.push(rgb[i * 3]);
        out.push(rgb[i * 3 + 1]);
        out.push(rgb[i * 3 + 2]);
        out.push(255);
        proof {
            assert forall|k: int| 0 <= k < (i + 1) * 4 implies out@[k] == rgba_of_rgb(rgb@)[k] by {
                if k >= i * 4 {
                    let j = k - i * 4;
                    assert(k / 4 == i as int && k % 4 == j) by (nonlinear_arith)
                        requires
                            k == i * 4 + j,
                            0 <= j < 4,
                    ;
                }
            }
        }
        i = i + 1;
    }
    proof {
        assert(out@ =~= rgba_of_rgb(rgb@));
    }
    out
}

/// Decodes an image for the canvas: bytes the decoder refuses, and images
/// of more than [`MAX_IMAGE_PIXELS`] pixels, are not drawn. A drawn image
/// is the decoder's RGBA8 copy.
pub fn decode_canvas_image(bytes: &[u8]) -> (r: Result<DecodedImage, ImageRefusal>)
    ensures
        match r {
            Ok(d) => {
                &&& image_load_error(bytes@) is None
                &&& (d.width, d.height, d.pixels@) == image_rgba(bytes@)
                &&& image_dims(bytes@).0 * image_dims(bytes@).1 <= MAX_IMAGE_PIXELS
            },
            Err(ImageRefusal::Undecodable(e)) => image_load_error(bytes@) == Some(e@),
            Err(ImageRefusal::TooLarge(w, h)) => {
                &&& image_load_error(bytes@) is None
                &&& (w, h) == image_dims(bytes@)
                &&& w * h > MAX_IMAGE_PIXELS
            },
        },
{
    let (w, h) = match image_dimensions_of(bytes) {
        Ok(d) => d,
        Err(e) => return Err(ImageRefusal::Undecodable(e)),
    };
    assert((w as u64) * (h as u64) <= u64::MAX) by (nonlinear_arith)
        requires
            w <= u32::MAX,
            h <= u32::MAX,
    ;
    if (w as u64) * (h as u64) > MAX_IMAGE_PIXELS as u64 {
        return Err(ImageRefusal::TooLarge(w, h));
    }
    match image_rgba_of(bytes) {
        Some((width, height, pixels)) => Ok(DecodedImage { width, height, pixels }),
        None => Err(ImageRefusal::Undecodable(String::new())),
    }
}

// ── Console ────────────────────────────────────────────────────────────────

/// Severity of a console line.
#[derive(Clone, Copy, Debug, PartialEq, Eq, Structural)]
pub enum ConsoleLevel {
    Log,
    Warn,
    Error,
}

/// A console line: local time of day, severity, message.
#[derive(Clone, Debug)]
pub struct ConsoleEntry {
    pub timestamp: String,
    pub level: ConsoleLevel,
    pub message: String,
}

/// The local time of day (`chrono::Local::now()` read through
/// `chrono::Timelike`): hour, minute, second and nanosecond. The nanosecond
/// goes past 999,999,999 only during a leap second, as chrono documents.
#[verifier::external_body]
fn local_time_parts() -> (r: (u32, u32, u32, u32))
    ensures
        r.0 < 24,
        r.1 < 60,
        r.2 < 60,
        r.3 < 2_000_000_000,
{
    let t = chrono::Local::now();
    let h = chrono::Timelike::hour(&t);
    let m = chrono::Timelike::minute(&t);
    (h, m, chrono::Timelike::second(&t), chrono::Timelike::nanosecond(&t))
}

/// A console timestamp, `HH:MM:SS.mmm`: a leap second reads as second 60.
pub open spec fn clock_stamp(h: u32, m: u32, s: u32, ns: u32) -> Seq<char> {
    dec_padded(h as nat, 2) + seq![':'] + dec_padded(m as nat, 2) + seq![':'] + dec_padded(
        (s + ns / 1_000_000_000) as nat,
        2,
    ) + seq!['.'] + dec_padded((ns / 1_000_000 % 1000) as nat, 3)
}

fn clock_text(h: u32, m: u32, s: u32, ns: u32) -> (r: String)
    requires
        s < 60,
        ns < 2_000_000_000,
    ensures
        r@ == clock_stamp(h, m, s, ns),
{
    let mut out = u64_to_dec_padded(h as u64, 2);
    out.push(':');
    let b = u64_to_dec_padded(m as u64, 2);
    append_chars(&mut out, b.as_slice());
    out.push(':');
    let c = u64_to_dec_padded((s + ns / 1_000_000_000) as u64, 2);
    append_chars(&mut out, c.as_slice());
    out.push('.');
    let d = u64_to_dec_padded((ns / 1_000_000 % 1000) as u64, 3);
    append_chars(&mut out, d.as_slice());
    proof {
        assert(out@ =~= clock_stamp(h, m, s, ns));
    }
    string_of(out.as_slice())
}

/// Appends a console line stamped with the local time of day.
pub fn console_log(console: &mut Vec<ConsoleEntry>, level: ConsoleLevel, message: String)
    ensures
        final(console)@.len() == old(console)@.len() + 1,
        final(console)@.take(old(console)@.len() as int) == old(console)@,
        final(console)@.last().level == level,
        final(console)@.last().message == message,
        exists|h: u32, m: u32, s: u32, ns: u32|
            h < 24 && m < 60 && s < 60 && ns < 2_000_000_000
                && final(console)@.last().timestamp@ == #[trigger] clock_stamp(h, m, s, ns),
{
    let (h, m, sec, ns) = local_time_parts();
    let timestamp = clock_text(h, m, sec, ns);
    console.push(ConsoleEntry { timestamp, level, message });
    proof {
        assert(console@.take(old(console)@.len() as int) =~= old(console)@);
    }
}

} // verus!
