use photo_archive::error::PipelineError;
use photo_archive::thumb::{create_thumb, thumbnail_size, TARGET_SIZE};

fn jpeg(w: u32, h: u32, seed: u8) -> Vec<u8> {
    let img = image::RgbImage::from_fn(w, h, |x, y| image::Rgb([seed, (x % 251) as u8, (y % 241) as u8]));
    let mut out = std::io::Cursor::new(Vec::new());
    image::DynamicImage::ImageRgb8(img)
        .write_to(&mut out, image::ImageOutputFormat::Jpeg(90))
        .unwrap();
    out.into_inner()
}

#[test]
fn small_images_keep_their_size() {
    assert_eq!(thumbnail_size(300, 200), (300, 200));
    assert_eq!(thumbnail_size(480, 480), (480, 480));
    assert_eq!(thumbnail_size(1, 480), (1, 480));
}

#[test]
fn longer_edge_is_pinned_to_bound() {
    assert_eq!(thumbnail_size(1000, 500), (480, 240));
    assert_eq!(thumbnail_size(500, 1000), (240, 480));
    assert_eq!(thumbnail_size(3000, 2000), (480, 320));
    assert_eq!(thumbnail_size(481, 481), (480, 480));
    assert_eq!(thumbnail_size(1001, 333), (480, 160));
}

#[test]
fn thin_images_keep_one_pixel() {
    assert_eq!(thumbnail_size(10000, 1), (480, 1));
    assert_eq!(thumbnail_size(1, 10000), (1, 480));
}

#[test]
fn bound_and_aspect_hold_over_a_grid() {
    for w in (1..3000u32).step_by(37) {
        for h in (1..3000u32).step_by(41) {
            let (tw, th) = thumbnail_size(w, h);
            assert!(tw.max(th) <= TARGET_SIZE);
            if w.max(h) <= TARGET_SIZE {
                assert_eq!((tw, th), (w, h));
            }
            let diff = (tw as i64 * h as i64 - th as i64 * w as i64).abs();
            assert!(diff <= w.max(h) as i64);
        }
    }
}

#[test]
fn thumbnail_of_large_image_is_scaled() {
    let t = create_thumb(&jpeg(1000, 500, 7)).unwrap();
    assert_eq!((t.source_width, t.source_height), (1000, 500));
    assert_eq!((t.width, t.height), (480, 240));
    let decoded = image::load_from_memory(&t.bytes).unwrap();
    assert_eq!((decoded.width(), decoded.height()), (480, 240));
}

#[test]
fn thumbnail_of_small_image_keeps_size() {
    let source = jpeg(100, 50, 8);
    let t = create_thumb(&source).unwrap();
    assert_eq!((t.width, t.height), (100, 50));
    assert_eq!(t.bytes, source);
    let decoded = image::load_from_memory(&t.bytes).unwrap();
    assert_eq!((decoded.width(), decoded.height()), (100, 50));
}

#[test]
fn corrupt_image_is_a_decode_error() {
    assert!(matches!(create_thumb(&b"not an image".to_vec()), Err(PipelineError::Decode)));
    assert!(matches!(create_thumb(&vec![]), Err(PipelineError::Decode)));
}
