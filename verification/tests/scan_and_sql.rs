use photo_catalog::meta;
use photo_catalog::scan;
use photo_catalog::sql;
use photo_catalog::catalog::Filter;
use photo_catalog::sql::BindValue;
use photo_catalog::sql::MetaTable;

#[test]
fn image_extension_allow_lists() {
    assert!(scan::is_regular_image("/a/b/photo.jpg"));
    assert!(scan::is_regular_image("photo.JPEG"));
    assert!(scan::is_regular_image("/x/y.webp"));
    assert!(!scan::is_regular_image("/a/b/photo.cr2"));
    assert!(scan::is_raw_image("/a/b/photo.cr2"));
    assert!(scan::is_raw_image("shot.NEF"));
    assert!(!scan::is_raw_image("shot.gif"));
    assert!(scan::is_image_file("/d/e/f.TIFF"));
    assert!(scan::is_image_file("raw.dng"));
    assert!(!scan::is_image_file("/a/b/readme.txt"));
    assert!(!scan::is_image_file("/a/b/noextension"));
    assert!(!scan::is_image_file("/a/b/.hidden"));
    assert!(!scan::is_image_file("/a/b/picture."));
}

#[test]
fn path_components() {
    assert_eq!(scan::file_name_of("/a/b/c.jpg"), "c.jpg");
    assert_eq!(scan::file_name_of("c.jpg"), "c.jpg");
    assert_eq!(scan::base_name_of("/a/b/c.d.jpg"), "c.d");
    assert_eq!(scan::extension_of("/a/b/c.d.jpg"), Some("jpg".to_string()));
    assert_eq!(scan::extension_of("/a/b/chapter"), None);
    assert_eq!(scan::extension_of("/a/b/.hidden"), None);
    assert_eq!(scan::parent_of("/a/b/c.jpg"), "/a/b");
    assert_eq!(scan::parent_of("c.jpg"), "");
}

#[test]
fn library_file_from_entry() {
    let lf = scan::make_library_file("/pics/trip/IMG_0001.CR2", 1_700_000_000, 123, 1_700_000_100, 4)
        .unwrap();
    assert_eq!(lf.original_file_name, "IMG_0001.CR2");
    assert_eq!(lf.base_name, "IMG_0001");
    assert_eq!(lf.extension, "CR2");
    assert_eq!(lf.path, "/pics/trip/IMG_0001.CR2");
    assert_eq!(lf.parent_path, "/pics/trip");
    assert_eq!(lf.file_created_time, "2023-11-14T22:13:20.123Z");
    assert_eq!(lf.file_modified_time, "2023-11-14T22:15:00.004Z");
    assert!(scan::make_library_file("/pics/trip/notes.txt", 0, 0, 0, 0).is_none());
}

fn filter(rating: u32, flag: &str, color: &str) -> Filter {
    Filter { rating, flag: flag.to_string(), color_label: color.to_string() }
}

#[test]
fn images_query_without_restrictions() {
    let stmt = sql::get_images_query("/p", "default", "asc", &filter(0, "unpicked", "none"))
        .unwrap();
    assert_eq!(
        stmt.text,
        "select *, json_group_array(t.tag_name) as tags from library_file as lf join image as i on lf.id == i.library_file_id left join tag as t on t.image_id = i.id where lf.parent_path=? and i.rating >= ? group by i.id"
    );
    assert_eq!(stmt.binds.len(), 2);
    assert!(matches!(&stmt.binds[0], BindValue::Text(s) if s == "/p"));
    assert!(matches!(&stmt.binds[1], BindValue::Uint(0)));
}

#[test]
fn images_query_with_all_restrictions() {
    let stmt = sql::get_images_query("/p", "rating", "desc", &filter(2, "picked", "green"))
        .unwrap();
    assert!(stmt.text.contains(" and i.flag=?"));
    assert!(stmt.text.contains(" and i.color_label=?"));
    assert!(stmt.text.ends_with(" group by i.id order by rating desc"));
    assert_eq!(stmt.binds.len(), 4);
    assert!(matches!(&stmt.binds[2], BindValue::Text(s) if s == "picked"));
    assert!(matches!(&stmt.binds[3], BindValue::Text(s) if s == "green"));
}

#[test]
fn images_query_validates_sort_text() {
    let r = sql::get_images_query("/p", "rating; --", "asc", &filter(0, "unpicked", "none"));
    assert!(matches!(r, Err(sql::QueryError::UnknownSortKey)));
    let r = sql::get_images_query("/p", "rating", "upward", &filter(0, "unpicked", "none"));
    assert!(matches!(r, Err(sql::QueryError::UnknownSortOrder)));
}

#[test]
fn sparse_meta_insert_stays_aligned() {
    let values = vec![
        ("camera_make".to_string(), "ACME".to_string()),
        ("iso_speed".to_string(), "400".to_string()),
    ];
    let stmt = sql::insert_meta_stmt(MetaTable::Exif, 7, &values);
    assert_eq!(
        stmt.text,
        "INSERT INTO exif (camera_make, iso_speed, image_id) VALUES (?, ?, ?)"
    );
    assert_eq!(stmt.binds.len(), 3);
    assert!(matches!(&stmt.binds[0], BindValue::Text(s) if s == "ACME"));
    assert!(matches!(&stmt.binds[1], BindValue::Text(s) if s == "400"));
    assert!(matches!(&stmt.binds[2], BindValue::Int(7)));
}

#[test]
fn degenerate_meta_insert() {
    let stmt = sql::insert_meta_stmt(MetaTable::Iptc, 9, &Vec::new());
    assert_eq!(stmt.text, "INSERT INTO iptc (image_id) VALUES (?)");
    assert_eq!(stmt.binds.len(), 1);
}

#[test]
fn fixed_statement_texts() {
    let s = sql::has_images_stmt("/p");
    assert_eq!(s.text, "select count(*) as count from library_file where parent_path=$1");
    let s = sql::get_keywords_stmt();
    assert_eq!(s.text, "SELECT DISTINCT tag_name from tag");
    assert!(s.binds.is_empty());
    let s = sql::add_keyword_stmt(3, "nature");
    assert_eq!(s.text, "INSERT into tag (image_id, tag_name) values (?, ?)");
    let s = sql::remove_keyword_stmt(3, "nature");
    assert_eq!(s.text, "DELETE from tag where image_id=$1 and tag_name=$2");
    let s = sql::update_image_rating_stmt("/p/a.jpg", 4);
    assert_eq!(
        s.text,
        "UPDATE image set rating=? from library_file lf where lf.id=image.library_file_id and lf.path=?"
    );
    let s = sql::update_flag_stmt("/p/a.jpg", "picked");
    assert_eq!(
        s.text,
        "UPDATE image set flag=? from library_file lf where lf.id=image.library_file_id and lf.path=?"
    );
    let s = sql::update_color_label_stmt("/p/a.jpg", "blue");
    assert_eq!(
        s.text,
        "UPDATE image set color_label=? from library_file lf where lf.id=image.library_file_id and lf.path=?"
    );
    let s = sql::image_id_from_path_stmt("/p/a.jpg");
    assert_eq!(
        s.text,
        "Select image.id from image left join library_file on image.library_file_id=library_file.id where library_file.path=$1"
    );
    let s = sql::insert_library_file_stmt(&photo_catalog::catalog::LibraryFile {
        original_file_name: "a.jpg".to_string(),
        base_name: "a".to_string(),
        extension: "jpg".to_string(),
        file_created_time: "t1".to_string(),
        file_modified_time: "t2".to_string(),
        path: "/p/a.jpg".to_string(),
        parent_path: "/p".to_string(),
    });
    assert_eq!(
        s.text,
        "INSERT INTO library_file (original_file_name, base_name, extension, file_created_time, file_modified_time, path, parent_path) values (?, ?, ?, ?, ?, ?, ?)"
    );
    assert_eq!(s.binds.len(), 7);
    let s = sql::insert_image_stmt(5, "2024-01-01T00:00:00.000Z");
    assert_eq!(s.text, "INSERT INTO image (library_file_id, capture_time) values (?, ?)");
    assert_eq!(s.binds.len(), 2);
}

#[test]
fn metadata_key_catalogs() {
    let exif = meta::exif_key_catalog();
    assert_eq!(exif.len(), 31);
    assert_eq!(exif[0], ("camera_make", "Exif.Image.Make"));
    assert_eq!(exif[30], ("artist", "Exif.Image.Artist"));
    let iptc = meta::iptc_key_catalog();
    assert_eq!(iptc.len(), 6);
    assert_eq!(iptc[5], ("description", "Iptc.Application2.Caption"));
}

#[test]
fn capture_time_decision() {
    let file = photo_catalog::catalog::LibraryFile {
        original_file_name: "a.jpg".to_string(),
        base_name: "a".to_string(),
        extension: "jpg".to_string(),
        file_created_time: "2024-01-01T00:00:00.000Z".to_string(),
        file_modified_time: "2024-01-01T00:00:00.000Z".to_string(),
        path: "/p/a.jpg".to_string(),
        parent_path: "/p".to_string(),
    };
    let without = meta::ScannedFile { file, meta: None };
    assert_eq!(without.capture_time(), "2024-01-01T00:00:00.000Z");
    assert_eq!(
        without.exif_values(),
        vec![("datetime_original".to_string(), "2024-01-01T00:00:00.000Z".to_string())]
    );
    assert!(without.iptc_values().is_empty());
}
