use photo_archive::date::{get_exif_date, resolve_capture_date, resolve_date, resolve_date_at};
use photo_archive::hash::get_file_hash;

fn hex(b: &[u8]) -> String {
    b.iter().map(|x| format!("{:02x}", x)).collect()
}

fn jpeg(w: u32, h: u32, seed: u8) -> Vec<u8> {
    let img = image::RgbImage::from_fn(w, h, |x, y| image::Rgb([seed, (x % 251) as u8, (y % 241) as u8]));
    let mut out = std::io::Cursor::new(Vec::new());
    image::DynamicImage::ImageRgb8(img)
        .write_to(&mut out, image::ImageOutputFormat::Jpeg(90))
        .unwrap();
    out.into_inner()
}

fn with_exif_datetime(jpeg: &[u8], datetime: &str) -> Vec<u8> {
    let field = exif::Field {
        tag: exif::Tag::DateTime,
        ifd_num: exif::In::PRIMARY,
        value: exif::Value::Ascii(vec![datetime.as_bytes().to_vec()]),
    };
    let mut writer = exif::experimental::Writer::new();
    writer.push_field(&field);
    let mut tiff = std::io::Cursor::new(Vec::new());
    writer.write(&mut tiff, false).unwrap();
    let tiff = tiff.into_inner();
    let len = (2 + 6 + tiff.len()) as u16;
    let mut out = vec![0xFF, 0xD8, 0xFF, 0xE1, (len >> 8) as u8, (len & 0xFF) as u8];
    out.extend_from_slice(b"Exif\0\0");
    out.extend_from_slice(&tiff);
    out.extend_from_slice(&jpeg[2..]);
    out
}

#[test]
fn digest_of_known_input() {
    let d = get_file_hash(&b"abc".to_vec());
    assert_eq!(
        hex(&d),
        "ddaf35a193617abacc417349ae20413112e6fa4e89a97ea20a9eeee64b55d39a2192992a274fc1a836ba3c23a3feebbd454d4423643ce80e2a9ac94fa54ca49f"
    );
}

#[test]
fn digest_is_deterministic() {
    let a = vec![1u8, 2, 3, 4, 5];
    let b = a.clone();
    assert_eq!(get_file_hash(&a), get_file_hash(&b));
    assert_eq!(get_file_hash(&a).len(), 64);
    assert_eq!(get_file_hash(&vec![]).len(), 64);
}

#[test]
fn digest_differs_for_other_content() {
    assert_ne!(get_file_hash(&vec![1u8, 2, 3]), get_file_hash(&vec![1u8, 2, 4]));
}

#[test]
fn fallback_chain_order() {
    assert_eq!(resolve_capture_date(Some(10), Some(20), 30), 10);
    assert_eq!(resolve_capture_date(Some(10), None, 30), 10);
    assert_eq!(resolve_capture_date(None, Some(20), 30), 20);
    assert_eq!(resolve_capture_date(None, None, 30), 30);
}

#[test]
fn exif_date_is_read() {
    let bytes = with_exif_datetime(&jpeg(8, 8, 1), "2016:09:25 15:49:18");
    assert_eq!(get_exif_date(&bytes), Some(1474818558000));
    assert_eq!(resolve_date(&bytes, Some(5)), 1474818558000);
}

#[test]
fn no_exif_date_falls_back_to_creation_time() {
    let bytes = jpeg(8, 8, 2);
    assert_eq!(get_exif_date(&bytes), None);
    assert_eq!(resolve_date(&bytes, Some(1234)), 1234);
}

#[test]
fn unparsable_exif_date_falls_back() {
    let bytes = with_exif_datetime(&jpeg(8, 8, 3), "not a date at all!!");
    assert_eq!(get_exif_date(&bytes), None);
    assert_eq!(resolve_date(&bytes, Some(77)), 77);
}

#[test]
fn no_date_at_all_gives_now() {
    let bytes = b"neither image nor metadata".to_vec();
    let before = chrono::Utc::now().timestamp_millis();
    let d = resolve_date(&bytes, None);
    let after = chrono::Utc::now().timestamp_millis();
    assert!(before <= d && d <= after);
}

#[test]
fn resolution_at_a_given_time() {
    let plain = jpeg(8, 8, 4);
    assert_eq!(resolve_date_at(&plain, None, 424242), 424242);
    assert_eq!(resolve_date_at(&plain, Some(9), 424242), 9);
    let tagged = with_exif_datetime(&jpeg(8, 8, 5), "2016:09:25 15:49:18");
    assert_eq!(resolve_date_at(&tagged, Some(9), 424242), 1474818558000);
}
