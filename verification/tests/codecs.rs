use std::io::Cursor;

use oxide_browser::codecs::{
    base64_decode_reply, base64_encode_reply, console_log, decode_canvas_image, hash_sha256, rgb_to_rgba,
    rgba_to_bgra,
    ConsoleLevel, ImageRefusal,
};

#[test]
fn sha256_of_abc() {
    let d = hash_sha256(b"abc");
    let hex: String = d.iter().map(|b| format!("{b:02x}")).collect();
    assert_eq!(
        hex,
        "ba7816bf8f01cfea414140de5dae2223b00361a396177a9cb410ff61f20015ad"
    );
}

#[test]
fn base64_replies_fit_the_buffer() {
    assert_eq!(base64_encode_reply(b"hello", 100), b"aGVsbG8=".to_vec());
    assert_eq!(base64_encode_reply(b"hello", 3), b"aGV".to_vec());
    assert_eq!(base64_decode_reply("aGVsbG8=", 100), b"hello".to_vec());
    assert_eq!(base64_decode_reply("aGVsbG8=", 2), b"he".to_vec());
    assert!(base64_decode_reply("not base64!", 100).is_empty());
}

#[test]
fn canvas_images_decode_to_rgba() {
    let mut img = image::RgbaImage::new(2, 1);
    img.put_pixel(0, 0, image::Rgba([1, 2, 3, 4]));
    img.put_pixel(1, 0, image::Rgba([5, 6, 7, 8]));
    let mut png = Vec::new();
    img.write_to(&mut Cursor::new(&mut png), image::ImageFormat::Png)
        .unwrap();
    let d = match decode_canvas_image(&png) {
        Ok(d) => d,
        Err(e) => panic!("{}", e.message()),
    };
    assert_eq!((d.width, d.height), (2, 1));
    assert_eq!(d.pixels, vec![1, 2, 3, 4, 5, 6, 7, 8]);
    match decode_canvas_image(b"not an image") {
        Err(e) => {
            assert!(matches!(e, ImageRefusal::Undecodable(_)));
            assert!(e.message().starts_with("[IMAGE] Failed to decode: "));
        }
        Ok(_) => panic!("garbage must not decode"),
    }
    assert_eq!(
        ImageRefusal::TooLarge(5000, 4000).message(),
        "[IMAGE] Rejected: 5000x4000 exceeds maximum of 16777216 pixels"
    );
}

#[test]
fn console_lines_keep_level_and_message() {
    let mut console = Vec::new();
    console_log(&mut console, ConsoleLevel::Warn, "careful".to_string());
    console_log(&mut console, ConsoleLevel::Error, "bad".to_string());
    assert_eq!(console.len(), 2);
    assert_eq!(console[1].level, ConsoleLevel::Error);
    assert_eq!(console[0].message, "careful");
    // HH:MM:SS.mmm
    assert_eq!(console[0].timestamp.len(), 12);
    assert_eq!(&console[0].timestamp[2..3], ":");
}

#[test]
fn camera_pixels_become_opaque_rgba() {
    assert_eq!(rgb_to_rgba(&[1, 2, 3, 4, 5, 6]), vec![1, 2, 3, 255, 4, 5, 6, 255]);
    assert_eq!(rgb_to_rgba(&[9, 8, 7, 6]), vec![9, 8, 7, 255]);
    assert!(rgb_to_rgba(&[]).is_empty());
}

#[test]
fn render_pixels_swap_red_and_blue() {
    let px = vec![1, 2, 3, 4, 5, 6, 7, 8, 9, 10];
    let bgra = rgba_to_bgra(px.clone());
    assert_eq!(bgra, vec![3, 2, 1, 4, 7, 6, 5, 8, 9, 10]);
    assert_eq!(rgba_to_bgra(bgra), px);
}

#[test]
fn base64_reply_roundtrips_and_refuses_noncanonical_text() {
    let data = b"Many hands make light work.";
    let enc = base64_encode_reply(data, 1024);
    let text = String::from_utf8(enc).unwrap();
    assert_eq!(base64_decode_reply(&text, 1024), data.to_vec());
    assert!(base64_decode_reply("AB==", 16).is_empty());
    assert!(base64_decode_reply("aGk", 16).is_empty());
    assert_eq!(base64_decode_reply("aGk=", 16), b"hi".to_vec());
}
