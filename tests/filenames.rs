use photo_archive::common::{get_image_filenames, is_target};
use photo_archive::server::PhotoList;
use photo_archive::thumbs::{get_origin_filename, get_origin_filenames, get_thumb_filename, thumbs_to_create};

#[test]
fn target_extensions_any_case() {
    assert!(is_target(&"photos/a.jpg".to_string()));
    assert!(is_target(&"photos/b.JPG".to_string()));
    assert!(is_target(&"c.jpeg".to_string()));
    assert!(is_target(&"d/e/f.JpEg".to_string()));
}

#[test]
fn other_files_are_not_targets() {
    assert!(!is_target(&"a.png".to_string()));
    assert!(!is_target(&"a.jpgx".to_string()));
    assert!(!is_target(&"noext".to_string()));
    assert!(!is_target(&"dir/.jpg".to_string()));
    assert!(!is_target(&"dir.jpg/file".to_string()));
    assert!(!is_target(&"".to_string()));
    assert!(!is_target(&"a.".to_string()));
}

#[test]
fn image_filenames_keep_order() {
    let entries = vec![
        "x/1.jpg".to_string(),
        "x/2.txt".to_string(),
        "x/y/3.JPEG".to_string(),
        "x/4".to_string(),
        "5.Jpg".to_string(),
    ];
    let r = get_image_filenames(entries);
    assert_eq!(r, vec!["x/1.jpg".to_string(), "x/y/3.JPEG".to_string(), "5.Jpg".to_string()]);
}

#[test]
fn image_filenames_empty() {
    assert!(get_image_filenames(vec![]).is_empty());
}

#[test]
fn thumb_file_names_round_trip() {
    let t = get_thumb_filename(&"cat.jpg".to_string());
    assert_eq!(t, "cat.jpg.thumb.jpg");
    assert_eq!(get_origin_filename(&t), Some("cat.jpg".to_string()));
    assert_eq!(get_origin_filename(&"cat.jpg".to_string()), None);
    assert_eq!(get_origin_filename(&".thumb.jpg".to_string()), Some(String::new()));
    assert_eq!(get_origin_filename(&"jpg".to_string()), None);
}

#[test]
fn photo_list_from_thumbnail_names() {
    let names = vec!["a.jpg.thumb.jpg".to_string(), "b.jpg".to_string(), "c.JPG.thumb.jpg".to_string()];
    assert_eq!(get_origin_filenames(&names), vec!["a.jpg".to_string(), "c.JPG".to_string()]);
    let list = PhotoList::from_thumb_names(&names);
    assert_eq!(list.photos, vec!["a.jpg".to_string(), "c.JPG".to_string()]);
}

#[test]
fn only_missing_thumbnails_are_made() {
    let entries = vec!["a.jpg".to_string(), "b.jpg".to_string(), "c.jpg".to_string()];
    let existing = vec!["b.jpg.thumb.jpg".to_string(), "a.jpg".to_string()];
    assert_eq!(thumbs_to_create(&entries, &existing), vec!["a.jpg".to_string(), "c.jpg".to_string()]);
    assert_eq!(thumbs_to_create(&entries, &vec![]), entries);
}
