use base64::Engine as _;
use hailux_tui::clipboard::{
    decode_base64_image, image_attachment, image_size_allowed, sniff_image_mime,
    within_image_limit, ClipboardImage, MAX_IMAGE_BYTES,
};

#[test]
fn decode_rejects_non_image() {
    let b64 = base64::engine::general_purpose::STANDARD.encode(b"not an image");
    assert!(decode_base64_image(&b64).is_none());
}

#[test]
fn decode_accepts_png() {
    let png_bytes: [u8; 9] = [0x89, b'P', b'N', b'G', 0x0D, 0x0A, 0x1A, 0x0A, 0];
    let b64 = base64::engine::general_purpose::STANDARD.encode(png_bytes);
    let img = decode_base64_image(&b64).unwrap();
    assert_eq!(img.mime, "image/png");
}

#[test]
fn decode_empty_returns_none() {
    assert!(decode_base64_image("   \n").is_none());
}

#[test]
fn decode_ignores_white_space_and_rejects_bad_base64() {
    let jpeg: [u8; 4] = [0xff, 0xd8, 0xff, 0xe0];
    let b64 = base64::engine::general_purpose::STANDARD.encode(jpeg);
    let spaced = format!(" {}\n{} ", &b64[..2], &b64[2..]);
    let img = decode_base64_image(&spaced).unwrap();
    assert_eq!(img.mime, "image/jpeg");
    assert_eq!(img.bytes, jpeg.to_vec());
    assert!(decode_base64_image("!!!!").is_none());
}

#[test]
fn sniff_knows_four_formats() {
    assert_eq!(sniff_image_mime(b"GIF89a..."), Some("image/gif"));
    assert_eq!(sniff_image_mime(b"GIF87a"), Some("image/gif"));
    assert_eq!(sniff_image_mime(b"RIFF\0\0\0\0WEBPVP8 "), Some("image/webp"));
    assert_eq!(sniff_image_mime(b"RIFF\0\0\0\0WAVE"), None);
    assert_eq!(sniff_image_mime(b""), None);
}

#[test]
fn image_files_over_ten_mebibytes_are_refused() {
    assert_eq!(MAX_IMAGE_BYTES, 10 * 1024 * 1024);
    assert!(image_size_allowed(10 * 1024 * 1024));
    assert!(!image_size_allowed(10 * 1024 * 1024 + 1));
    let png = vec![0x89, 0x50, 0x4e, 0x47, 0x0d, 0x0a, 0x1a, 0x0a, 0, 0];
    let img = image_attachment(png.clone()).unwrap();
    assert_eq!(img.mime, "image/png");
    assert_eq!(img.bytes, png);
    assert!(image_attachment(b"GIF87a but not really".to_vec()).is_some());
    assert!(image_attachment(b"plain text".to_vec()).is_none());
    let mut big = png.clone();
    big.resize(10 * 1024 * 1024 + 1, 0);
    assert!(image_attachment(big.clone()).is_none());
    let small = ClipboardImage { mime: "image/png".to_string(), bytes: png };
    assert!(within_image_limit(Some(small)).is_some());
    let large = ClipboardImage { mime: "image/png".to_string(), bytes: big };
    assert!(within_image_limit(Some(large)).is_none());
    assert!(within_image_limit(None).is_none());
}
