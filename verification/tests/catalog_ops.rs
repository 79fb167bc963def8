use photo_catalog::catalog::Catalog;
use photo_catalog::catalog::Filter;
use photo_catalog::catalog::LibraryFile;
use photo_catalog::meta::ExtractedMeta;
use photo_catalog::meta::ScannedFile;

fn file_at(dir: &str, name: &str, ext: &str) -> LibraryFile {
    let path = format!("{}/{}.{}", dir, name, ext);
    LibraryFile {
        original_file_name: format!("{}.{}", name, ext),
        base_name: name.to_string(),
        extension: ext.to_string(),
        file_created_time: "2023-11-14T22:13:20.000Z".to_string(),
        file_modified_time: "2023-11-14T22:13:20.000Z".to_string(),
        path,
        parent_path: dir.to_string(),
    }
}

fn scanned(dir: &str, name: &str, ext: &str) -> ScannedFile {
    ScannedFile { file: file_at(dir, name, ext), meta: None }
}

const DESKTOP: &str = "/Users/fancy-name/Desktop";

/// Sixteen images under the desktop directory: twelve rated at least 2, of
/// which three are additionally green with rating 3, and two of those are
/// flagged picked. `abc.jpg` is among the unrated ones.
fn fixture_catalog() -> Catalog {
    let mut cat = Catalog::new();
    let mut files: Vec<ScannedFile> = Vec::new();
    files.push(scanned(DESKTOP, "abc", "jpg"));
    for i in 0..3 {
        files.push(scanned(DESKTOP, &format!("plain{}", i), "jpg"));
    }
    for i in 0..9 {
        files.push(scanned(DESKTOP, &format!("rated{}", i), "jpg"));
    }
    for i in 0..3 {
        files.push(scanned(DESKTOP, &format!("green{}", i), "jpg"));
    }
    let count = cat.insert_images(&files);
    assert_eq!(count, 16);
    for i in 0..9 {
        cat.update_image_rating(&format!("{}/rated{}.jpg", DESKTOP, i), 2).unwrap();
    }
    for i in 0..3 {
        let path = format!("{}/green{}.jpg", DESKTOP, i);
        cat.update_image_rating(&path, 3).unwrap();
        cat.update_color_label(&path, "green").unwrap();
    }
    for i in 0..2 {
        cat.update_flag(&format!("{}/green{}.jpg", DESKTOP, i), "picked").unwrap();
    }
    cat
}

/// The fixture with twenty tag rows over eleven distinct keywords;
/// `abc.jpg` carries one row named `nature`.
fn fixture_catalog_with_tags() -> Catalog {
    let mut cat = fixture_catalog();
    cat.add_keyword(&format!("{}/abc.jpg", DESKTOP), "nature").unwrap();
    for i in 0..9 {
        let path = format!("{}/rated{}.jpg", DESKTOP, i);
        cat.add_keyword(&path, &format!("kw{}", i)).unwrap();
        cat.add_keyword(&path, "shared").unwrap();
    }
    cat.add_keyword(&format!("{}/green0.jpg", DESKTOP), "shared").unwrap();
    assert_eq!(cat.tags.len(), 20);
    cat
}

fn filter(rating: u32, flag: &str, color: &str) -> Filter {
    Filter { rating, flag: flag.to_string(), color_label: color.to_string() }
}

#[test]
fn db_test_has_images_for_path() {
    let cat = fixture_catalog();
    assert_eq!(cat.has_images_for_path("/Users/fancy-name/Desktop"), true);
    assert_eq!(cat.has_images_for_path("/Users/fancy-name/nonexistentpath"), false);
}

#[test]
fn db_test_get_images() {
    let cat = fixture_catalog();
    let images = cat
        .get_images_in_path(DESKTOP, "default", "asc", &filter(0, "unpicked", "none"))
        .unwrap();
    assert_eq!(images.len(), 16);
    let images = cat
        .get_images_in_path(DESKTOP, "default", "asc", &filter(2, "unpicked", "none"))
        .unwrap();
    assert_eq!(images.len(), 12);
    let images = cat
        .get_images_in_path(DESKTOP, "default", "asc", &filter(3, "unpicked", "green"))
        .unwrap();
    assert_eq!(images.len(), 3);
    let images = cat
        .get_images_in_path(DESKTOP, "default", "asc", &filter(3, "picked", "green"))
        .unwrap();
    assert_eq!(images.len(), 2);
}

#[test]
fn test_insert_images() {
    let mut cat = Catalog::new();
    let dir = "/pictures/batch";
    let unrestricted = filter(0, "unpicked", "none");
    let images = cat.get_images_in_path(dir, "default", "asc", &unrestricted).unwrap();
    assert_eq!(images.len(), 0);

    let files = vec![
        scanned(dir, "one", "jpg"),
        scanned(dir, "two", "cr2"),
        scanned(dir, "three", "png"),
    ];
    let count = cat.insert_images(&files);
    assert_eq!(count, files.len());

    let images = cat.get_images_in_path(dir, "default", "asc", &unrestricted).unwrap();
    assert_eq!(images.len(), files.len());
}

#[test]
fn test_get_keywords() {
    let cat = fixture_catalog_with_tags();
    let keywords = cat.get_keywords();
    assert_eq!(keywords.len(), 11);
}

#[test]
fn test_add_keyword() {
    let mut cat = fixture_catalog_with_tags();
    assert_eq!(cat.tags.len(), 20);
    cat.add_keyword("/Users/fancy-name/Desktop/abc.jpg", "random_stuff").unwrap();
    assert_eq!(cat.tags.len(), 21);
}

#[test]
fn test_remove_keyword() {
    let mut cat = fixture_catalog_with_tags();
    assert_eq!(cat.tags.len(), 20);
    cat.remove_keyword("/Users/fancy-name/Desktop/abc.jpg", "nature").unwrap();
    assert_eq!(cat.tags.len(), 19);
}

#[test]
fn test_update_flag() {
    let mut cat = fixture_catalog_with_tags();
    let image_path = "/Users/fancy-name/Desktop/abc.jpg";
    cat.update_flag(image_path, "rejected").unwrap();
    let images = cat
        .get_images_in_path(DESKTOP, "default", "asc", &filter(0, "rejected", "none"))
        .unwrap();
    assert_eq!(images.len(), 1);
    assert_eq!(images[0].flag, "rejected");
    assert_eq!(images[0].path, image_path);
}

#[test]
fn test_update_image_rating() {
    let mut cat = fixture_catalog_with_tags();
    let image_path = "/Users/fancy-name/Desktop/abc.jpg";
    cat.update_image_rating(image_path, 0).unwrap();
    let images = cat
        .get_images_in_path(DESKTOP, "default", "asc", &filter(0, "unpicked", "none"))
        .unwrap();
    let row = images.iter().find(|r| r.path == image_path).unwrap();
    assert_eq!(row.rating, 0);
}

#[test]
fn test_update_color_label() {
    let mut cat = fixture_catalog_with_tags();
    let image_path = "/Users/fancy-name/Desktop/abc.jpg";
    cat.update_color_label(image_path, "blue").unwrap();
    let images = cat
        .get_images_in_path(DESKTOP, "default", "asc", &filter(0, "unpicked", "blue"))
        .unwrap();
    assert_eq!(images.len(), 1);
    assert_eq!(images[0].color_label, "blue");
}

#[test]
fn keywords_round_trip_restores_count() {
    let mut cat = fixture_catalog_with_tags();
    let path = "/Users/fancy-name/Desktop/abc.jpg";
    let before = cat.get_keywords();
    assert!(!before.contains(&"brand_new".to_string()));
    cat.add_keyword(path, "brand_new").unwrap();
    let during = cat.get_keywords();
    assert_eq!(during.len(), before.len() + 1);
    assert!(during.contains(&"brand_new".to_string()));
    cat.remove_keyword(path, "brand_new").unwrap();
    let after = cat.get_keywords();
    assert_eq!(after, before);
}

#[test]
fn keyword_ops_fail_without_image() {
    let mut cat = fixture_catalog();
    assert!(cat.add_keyword("/nowhere/else.jpg", "kw").is_err());
    assert!(cat.remove_keyword("/nowhere/else.jpg", "kw").is_err());
    assert!(cat.update_image_rating("/nowhere/else.jpg", 4).is_err());
    assert!(cat.update_flag("/nowhere/else.jpg", "picked").is_err());
    assert!(cat.update_color_label("/nowhere/else.jpg", "red").is_err());
}

#[test]
fn unreadable_metadata_falls_back_to_created_time() {
    let mut cat = Catalog::new();
    let files = vec![scanned("/photos", "broken", "nef")];
    cat.insert_images(&files);
    let rows = cat
        .get_images_in_path("/photos", "default", "asc", &filter(0, "unpicked", "none"))
        .unwrap();
    assert_eq!(rows.len(), 1);
    assert_eq!(rows[0].capture_time, "2023-11-14T22:13:20.000Z");
    assert_eq!(rows[0].capture_time, rows[0].file_created_time);
}

#[test]
fn extracted_capture_time_is_used() {
    let mut cat = Catalog::new();
    let mut f = scanned("/photos", "good", "jpg");
    f.meta = Some(ExtractedMeta {
        capture_time: Some("2021-05-01T10:00:00.000Z".to_string()),
        exif_values: vec![("camera_make".to_string(), "ACME".to_string())],
        iptc_values: vec![],
    });
    cat.insert_images(&vec![f]);
    let rows = cat
        .get_images_in_path("/photos", "default", "asc", &filter(0, "unpicked", "none"))
        .unwrap();
    assert_eq!(rows[0].capture_time, "2021-05-01T10:00:00.000Z");
}

#[test]
fn reingesting_duplicates_rows() {
    let mut cat = Catalog::new();
    let dir = "/photos/dup";
    let files = vec![scanned(dir, "a", "jpg"), scanned(dir, "b", "jpg")];
    cat.insert_images(&files);
    cat.insert_images(&files);
    let rows = cat
        .get_images_in_path(dir, "default", "asc", &filter(0, "unpicked", "none"))
        .unwrap();
    assert_eq!(rows.len(), 4);
}

#[test]
fn query_aggregates_tags_per_image() {
    let mut cat = Catalog::new();
    let dir = "/photos/tagged";
    cat.insert_images(&vec![scanned(dir, "a", "jpg"), scanned(dir, "b", "jpg")]);
    let a = format!("{}/a.jpg", dir);
    cat.add_keyword(&a, "sunset").unwrap();
    cat.add_keyword(&a, "beach").unwrap();
    let rows = cat
        .get_images_in_path(dir, "default", "asc", &filter(0, "unpicked", "none"))
        .unwrap();
    assert_eq!(rows.len(), 2);
    let row_a = rows.iter().find(|r| r.path == a).unwrap();
    assert_eq!(row_a.tags, vec!["sunset".to_string(), "beach".to_string()]);
    let row_b = rows.iter().find(|r| r.path != a).unwrap();
    assert!(row_b.tags.is_empty());
}

#[test]
fn query_sorts_by_rating_in_both_directions() {
    let cat = fixture_catalog();
    let rows = cat
        .get_images_in_path(DESKTOP, "rating", "asc", &filter(0, "unpicked", "none"))
        .unwrap();
    assert_eq!(rows.len(), 16);
    for w in rows.windows(2) {
        assert!(w[0].rating <= w[1].rating);
    }
    let rows = cat
        .get_images_in_path(DESKTOP, "rating", "desc", &filter(0, "unpicked", "none"))
        .unwrap();
    for w in rows.windows(2) {
        assert!(w[0].rating >= w[1].rating);
    }
}

#[test]
fn query_sorts_by_file_name() {
    let cat = fixture_catalog();
    let rows = cat
        .get_images_in_path(
            DESKTOP,
            "original_file_name",
            "asc",
            &filter(0, "unpicked", "none"),
        )
        .unwrap();
    for w in rows.windows(2) {
        assert!(w[0].original_file_name <= w[1].original_file_name);
    }
}

#[test]
fn query_rejects_unknown_sort_text() {
    let cat = fixture_catalog();
    let err = cat
        .get_images_in_path(DESKTOP, "rating; drop table tag", "asc", &filter(0, "unpicked", "none"))
        .unwrap_err();
    assert!(matches!(err, photo_catalog::sql::QueryError::UnknownSortKey));
    let err = cat
        .get_images_in_path(DESKTOP, "rating", "sideways", &filter(0, "unpicked", "none"))
        .unwrap_err();
    assert!(matches!(err, photo_catalog::sql::QueryError::UnknownSortOrder));
}
