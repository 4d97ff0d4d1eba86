use spool_core::art::{
    art_for_steam, art_for_steam_or_raw, art_payload, local_art_for, sgdb_kind, sgdb_usable,
    transcode_webp_or_pass, transcode_webp_to_png, LocalArt,
};

const PNG_SIGNATURE: [u8; 8] = [0x89, b'P', b'N', b'G', 0x0d, 0x0a, 0x1a, 0x0a];

fn tiny_webp() -> Vec<u8> {
    let img = image::RgbaImage::from_pixel(2, 2, image::Rgba([200, 30, 40, 255]));
    let mut out = std::io::Cursor::new(Vec::new());
    image::DynamicImage::ImageRgba8(img).write_to(&mut out, image::ImageFormat::WebP).unwrap();
    out.into_inner()
}

#[test]
fn webp_art_becomes_png() {
    let webp = tiny_webp();
    let (kind, bytes) = transcode_webp_to_png("image/webp", webp.clone()).unwrap();
    assert_eq!(kind, "png");
    assert_eq!(&bytes[..8], &PNG_SIGNATURE);
    let (kind, bytes) = transcode_webp_or_pass("image/webp", webp);
    assert_eq!(kind, "png");
    assert_eq!(&bytes[..8], &PNG_SIGNATURE);
}

#[test]
fn broken_webp_art() {
    assert!(transcode_webp_to_png("image/webp", vec![1, 2, 3]).is_none());
    assert_eq!(transcode_webp_or_pass("image/webp", vec![1, 2, 3]), ("png", vec![1, 2, 3]));
}

#[test]
fn other_art_passes_unchanged() {
    assert_eq!(transcode_webp_to_png("image/jpeg", vec![9, 9]), Some(("jpeg", vec![9, 9])));
    assert_eq!(transcode_webp_to_png("image/png", vec![7]), Some(("png", vec![7])));
    assert_eq!(transcode_webp_or_pass("image/jpg", vec![5]), ("jpeg", vec![5]));
}

#[test]
fn art_for_steam_takes_the_given_conversion() {
    assert_eq!(art_for_steam("image/webp", vec![1], Some(vec![2])), Some(("png", vec![2])));
    assert_eq!(art_for_steam("image/webp", vec![1], None), None);
    assert_eq!(art_for_steam("image/jpeg", vec![1], Some(vec![2])), Some(("jpeg", vec![1])));
    assert_eq!(art_for_steam_or_raw("image/webp", vec![1], None), ("png", vec![1]));
    assert_eq!(art_for_steam_or_raw("image/webp", vec![1], Some(vec![3])), ("png", vec![3]));
}

#[test]
fn art_payload_is_base64() {
    let (t, b) = art_payload("jpeg", &vec![1, 2, 3, 255]);
    assert_eq!(t, "jpeg");
    assert_eq!(b, "AQID/w==");
}

#[test]
fn art_kinds() {
    assert!(matches!(local_art_for("capsule"), LocalArt::Cover));
    assert!(matches!(local_art_for("hero"), LocalArt::Hero));
    assert!(matches!(local_art_for("logo"), LocalArt::Online));
    assert_eq!(sgdb_kind("header"), "grid");
    assert_eq!(sgdb_kind("logo"), "logo");
    assert!(sgdb_usable(true, "k"));
    assert!(!sgdb_usable(true, ""));
    assert!(!sgdb_usable(false, "k"));
}
