use svg_bbox::{is_not_data_url, Error, MimeType};

#[test]
fn png_magic_is_recognised() {
    let m = MimeType::parse(&[0x89, 0x50, 0x4E, 0x47, 0x0D, 0x0A]).unwrap();
    assert_eq!(m, MimeType::Png);
    assert_eq!(m.mime_type(), "image/png");
}

#[test]
fn jpeg_magic_is_recognised() {
    let m = MimeType::parse(&[0xFF, 0xD8, 0xFF, 0xE0]).unwrap();
    assert_eq!(m, MimeType::Jpeg);
    assert_eq!(m.mime_type(), "image/jpeg");
}

#[test]
fn gif_magic_is_recognised() {
    let m = MimeType::parse(&[0x47, 0x49, 0x46, 0x38]).unwrap();
    assert_eq!(m, MimeType::Gif);
    assert_eq!(m.mime_type(), "image/gif");
}

#[test]
fn short_buffer_is_unsupported() {
    assert_eq!(MimeType::parse(&[0x89, 0x50, 0x4E]), Err(Error::UnsupportedImage));
}

#[test]
fn unknown_magic_is_unsupported() {
    assert_eq!(MimeType::parse(&[0x00, 0x01, 0x02, 0x03]), Err(Error::UnsupportedImage));
}

#[test]
fn data_urls_need_no_resolution() {
    assert!(!is_not_data_url("data:image/png;base64,AAAA"));
    assert!(is_not_data_url("https://example.test/image.png"));
    assert!(is_not_data_url("dat"));
    assert!(is_not_data_url(""));
}
