use photo_catalog::catalog::Catalog;
use photo_catalog::catalog::Filter;
use photo_catalog::catalog::LibraryFile;
use photo_catalog::meta::ScannedFile;

const DESKTOP: &str = "/Users/fancy-name/Desktop";

fn scanned(dir: &str, name: &str, rating: u32, color: Option<&str>, picked: bool) -> (ScannedFile, u32, Option<String>, bool) {
    let path = format!("{}/{}.jpg", dir, name);
    let file = LibraryFile {
        original_file_name: format!("{}.jpg", name),
        base_name: name.to_string(),
        extension: "jpg".to_string(),
        file_created_time: "2024-02-02T08:00:00.000Z".to_string(),
        file_modified_time: "2024-02-02T08:00:00.000Z".to_string(),
        path,
        parent_path: dir.to_string(),
    };
    (
        ScannedFile { file, meta: None },
        rating,
        color.map(|c| c.to_string()),
        picked,
    )
}

fn desktop_catalog() -> Catalog {
    let mut plan = Vec::new();
    for i in 0..4 {
        plan.push(scanned(DESKTOP, &format!("zero{}", i), 0, None, false));
    }
    for i in 0..9 {
        plan.push(scanned(DESKTOP, &format!("two{}", i), 2, None, false));
    }
    plan.push(scanned(DESKTOP, "g0", 3, Some("green"), true));
    plan.push(scanned(DESKTOP, "g1", 3, Some("green"), true));
    plan.push(scanned(DESKTOP, "g2", 3, Some("green"), false));
    let mut cat = Catalog::new();
    let files: Vec<ScannedFile> = plan
        .iter()
        .map(|(f, _, _, _)| ScannedFile {
            file: LibraryFile {
                original_file_name: f.file.original_file_name.clone(),
                base_name: f.file.base_name.clone(),
                extension: f.file.extension.clone(),
                file_created_time: f.file.file_created_time.clone(),
                file_modified_time: f.file.file_modified_time.clone(),
                path: f.file.path.clone(),
                parent_path: f.file.parent_path.clone(),
            },
            meta: None,
        })
        .collect();
    cat.insert_images(&files);
    for (f, rating, color, picked) in &plan {
        if *rating > 0 {
            cat.update_image_rating(&f.file.path, *rating).unwrap();
        }
        if let Some(c) = color {
            cat.update_color_label(&f.file.path, c).unwrap();
        }
        if *picked {
            cat.update_flag(&f.file.path, "picked").unwrap();
        }
    }
    cat
}

fn filter(rating: u32, flag: &str, color: &str) -> Filter {
    Filter { rating, flag: flag.to_string(), color_label: color.to_string() }
}

#[test]
fn main_test_has_images_for_path() {
    let cat = desktop_catalog();
    assert_eq!(cat.has_images_for_path("/Users/fancy-name/Desktop"), true);
    assert_eq!(cat.has_images_for_path("/Users/fancy-name/nonexistentpath"), false);
}

#[test]
fn main_test_get_images() {
    let cat = desktop_catalog();
    let images = cat
        .get_images_in_path(DESKTOP, "default", "asc", &filter(0, "unpicked", "none"))
        .unwrap();
    assert_eq!(images.len(), 16);
    let images = cat
        .get_images_in_path(DESKTOP, "default", "asc", &filter(2, "unpicked", "none"))
        .unwrap();
    assert_eq!(images.len(), 12);
    let images = cat
        .get_images_in_path(DESKTOP, "default", "asc", &filter(3, "unpicked", "green"))
        .unwrap();
    assert_eq!(images.len(), 3);
    let images = cat
        .get_images_in_path(DESKTOP, "default", "asc", &filter(3, "picked", "green"))
        .unwrap();
    assert_eq!(images.len(), 2);
}

#[test]
fn it_works() {
    assert_eq!(2, 2);
}
