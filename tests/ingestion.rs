use photo_archive::catalog::Catalog;
use photo_archive::error::PipelineError;
use photo_archive::media::{media_directory, Ingested, Media, MediaGenerateOption, SourceFile};
use photo_archive::meta::{MediaId, MediaMeta, MediaVisibility};
use photo_archive::server::{Meta, Server};

fn jpeg(w: u32, h: u32, seed: u8) -> Vec<u8> {
    let img = image::RgbImage::from_fn(w, h, |x, y| image::Rgb([seed, (x % 251) as u8, (y % 241) as u8]));
    let mut out = std::io::Cursor::new(Vec::new());
    image::DynamicImage::ImageRgb8(img)
        .write_to(&mut out, image::ImageOutputFormat::Jpeg(90))
        .unwrap();
    out.into_inner()
}

fn file(origin: &str, content: Vec<u8>, created: Option<i64>) -> SourceFile {
    SourceFile { origin: origin.to_string(), content, created }
}

#[test]
fn new_file_is_cataloged_with_thumbnail() {
    let mut c = Catalog::new();
    let opt = MediaGenerateOption::default();
    let r = Media::generate(&mut c, &file("/a/big.jpg", jpeg(960, 600, 1), Some(5000)), &opt).unwrap();
    match r {
        Ingested::Cataloged(m, t) => {
            assert_eq!(m.meta.origin, "/a/big.jpg");
            assert_eq!(m.meta.date, 5000);
            assert_eq!(m.meta.visibility, MediaVisibility::Private);
            assert_eq!((t.width, t.height), (480, 300));
        }
        Ingested::Deduplicated(_) => panic!("expected a new record"),
    }
    assert_eq!(c.len(), 1);
}

#[test]
fn identical_content_resolves_to_one_record() {
    let mut c = Catalog::new();
    let opt = MediaGenerateOption::default();
    let bytes = jpeg(64, 48, 2);
    let r1 = Media::generate(&mut c, &file("/a/one.jpg", bytes.clone(), Some(1)), &opt).unwrap();
    let r2 = Media::generate(&mut c, &file("/b/two.jpg", bytes, Some(2)), &opt).unwrap();
    assert!(matches!(r1, Ingested::Cataloged(_, _)));
    assert!(matches!(r2, Ingested::Deduplicated(_)));
    assert_eq!(r1.media().meta.media_id.as_str(), r2.media().meta.media_id.as_str());
    assert_eq!(r2.media().meta.origin, "/a/one.jpg");
    assert_eq!(c.len(), 1);
}

#[test]
fn corrupt_file_fails_and_changes_nothing() {
    let mut c = Catalog::new();
    let r = Media::generate(&mut c, &file("/bad.jpg", b"garbage".to_vec(), None), &MediaGenerateOption::default());
    assert!(matches!(r, Err(PipelineError::Decode)));
    assert_eq!(c.len(), 0);
}

#[test]
fn no_metadata_and_no_creation_time_gives_now() {
    let mut c = Catalog::new();
    let before = chrono::Utc::now().timestamp_millis();
    let r = Media::generate(&mut c, &file("/n.jpg", jpeg(10, 10, 3), None), &MediaGenerateOption::default()).unwrap();
    let after = chrono::Utc::now().timestamp_millis();
    let d = r.media().meta.date;
    assert!(before <= d && d <= after);
}

#[test]
fn batch_isolates_a_failing_file() {
    let mut c = Catalog::new();
    let files = vec![
        file("/1.jpg", jpeg(20, 10, 11), Some(1)),
        file("/2.jpg", jpeg(20, 10, 12), Some(2)),
        file("/3.jpg", b"this is not a jpeg".to_vec(), Some(3)),
        file("/4.jpg", jpeg(20, 10, 14), Some(4)),
        file("/5.jpg", jpeg(20, 10, 15), Some(5)),
    ];
    let r = Media::generate_many(&mut c, &files, &MediaGenerateOption::default());
    assert_eq!(r.len(), 5);
    assert!(matches!(r[2], Err(PipelineError::Decode)));
    for i in [0usize, 1, 3, 4] {
        assert!(matches!(r[i], Ok(Ingested::Cataloged(_, _))));
    }
    assert_eq!(c.len(), 4);
}

#[test]
fn batch_with_repeated_content() {
    let mut c = Catalog::new();
    let bytes = jpeg(16, 16, 21);
    let files = vec![file("/x.jpg", bytes.clone(), Some(1)), file("/y.jpg", bytes, Some(2))];
    let r = Media::generate_many(&mut c, &files, &MediaGenerateOption::default());
    assert!(matches!(r[0], Ok(Ingested::Cataloged(_, _))));
    assert!(matches!(r[1], Ok(Ingested::Deduplicated(_))));
    assert_eq!(c.len(), 1);
}

#[test]
fn store_paths() {
    let m = Media::from(MediaMeta::new("/src/p.jpg".to_string(), vec![1], 0));
    let id = m.meta.media_id.as_str().to_string();
    assert_eq!(m.get_thumb(&"/data".to_string()), format!("/data/media/{}/thumb.jpg", id));
    assert_eq!(media_directory(&"/data".to_string(), &m.meta.media_id), format!("/data/media/{}", id));
    assert_eq!(m.get_origin(), "/src/p.jpg");
}

#[test]
fn meta_description_has_date_text() {
    let mut m = MediaMeta::new("/src/q.jpg".to_string(), vec![1], 1474818558000);
    m.attributes = Some(vec![("k".to_string(), "v".to_string())]);
    let id = m.media_id.as_str().to_string();
    let d = Meta::from_meta(m).unwrap();
    assert_eq!(d.id, id);
    assert_eq!(d.origin_name, "/src/q.jpg");
    assert_eq!(d.date, "2016-09-25 15:49:18");
    assert_eq!(d.attributes, Some(vec![("k".to_string(), "v".to_string())]));
    let far = MediaMeta::new("/src/r.jpg".to_string(), vec![2], i64::MAX);
    assert!(Meta::from_meta(far).is_none());
}

#[test]
fn server_state_carries_data_dir() {
    let s = Server { data_dir: "/data".to_string(), port: 9999 };
    assert_eq!(s.app_state().data_dir, "/data");
}

#[test]
fn cataloging_under_a_taken_id_is_refused() {
    let mut c = Catalog::new();
    let opt = MediaGenerateOption::default();
    let first = Media::generate(&mut c, &file("/a.jpg", jpeg(12, 12, 31), Some(1)), &opt).unwrap();
    let taken = first.media().meta.media_id.clone();
    let f = file("/b.jpg", jpeg(12, 12, 32), Some(2));
    let hashed = photo_archive::hash::get_file_hash(&f.content);
    let r = Media::catalog_new(&mut c, &f, hashed.clone(), 2, taken);
    assert!(matches!(r, Err(PipelineError::DuplicateKey)));
    assert_eq!(c.len(), 1);
    let r = Media::catalog_new(&mut c, &f, hashed.clone(), 2, MediaId::from("fresh".to_string())).unwrap();
    match r {
        Ingested::Cataloged(m, t) => {
            assert_eq!(m.meta.media_id.as_str(), "fresh");
            assert_eq!(m.meta.date, 2);
            assert_eq!(m.meta.hashed, hashed);
            assert_eq!(t.bytes, f.content);
        }
        Ingested::Deduplicated(_) => panic!("expected a new record"),
    }
    assert_eq!(c.len(), 2);
}
