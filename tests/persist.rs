use image_poller::naming::{decimal_text, image_file_name};
use image_poller::persist::{plan_writes, PersistError};

fn strings(items: &[&str]) -> Vec<String> {
    items.iter().map(|s| s.to_string()).collect()
}

#[test]
fn decimal_text_values() {
    assert_eq!(decimal_text(0), "0");
    assert_eq!(decimal_text(7), "7");
    assert_eq!(decimal_text(10), "10");
    assert_eq!(decimal_text(1234), "1234");
    assert_eq!(decimal_text(usize::MAX), usize::MAX.to_string());
}

#[test]
fn file_name_layout() {
    assert_eq!(image_file_name("20240101120000", 0), "20240101120000_0.png");
    assert_eq!(image_file_name("20240101120000", 12), "20240101120000_12.png");
}

#[test]
fn two_images_two_files_one_stamp() {
    let images = strings(&["aGVsbG8=", "d29ybGQ="]);
    let plan = plan_writes("20240305061530", &images);
    assert!(plan.failure.is_none());
    assert_eq!(plan.files.len(), 2);
    assert_eq!(plan.files[0].name, "20240305061530_0.png");
    assert_eq!(plan.files[1].name, "20240305061530_1.png");
    assert_eq!(plan.files[0].bytes, b"hello".to_vec());
    assert_eq!(plan.files[1].bytes, b"world".to_vec());
}

#[test]
fn empty_image_list_plans_nothing() {
    let plan = plan_writes("20240305061530", &Vec::new());
    assert!(plan.files.is_empty());
    assert!(plan.failure.is_none());
}

#[test]
fn malformed_image_stops_the_plan() {
    let images = strings(&["aGVsbG8=", "not base64!", "d29ybGQ="]);
    let plan = plan_writes("20240305061530", &images);
    assert_eq!(plan.files.len(), 1);
    assert_eq!(plan.files[0].name, "20240305061530_0.png");
    let failure = plan.failure.expect("the second image is malformed");
    assert_eq!(failure.index(), 1);
    assert!(matches!(failure, PersistError::InvalidBase64 { index: 1, .. }));
}

#[test]
fn malformed_first_image_plans_no_file() {
    let images = strings(&["@@@@", "aGVsbG8="]);
    let plan = plan_writes("s", &images);
    assert!(plan.files.is_empty());
    assert_eq!(plan.failure.map(|e| e.index()), Some(0));
}

#[test]
fn clock_stamp_is_shared_by_all_files() {
    let images = strings(&["aGVsbG8=", "d29ybGQ="]);
    let now = chrono::Local::now().format("%Y%m%d%H%M%S").to_string();
    let plan = plan_writes(&now, &images);
    assert!(plan.failure.is_none());
    assert_eq!(plan.files.len(), 2);
    let first = &plan.files[0].name;
    let second = &plan.files[1].name;
    let stamp = first.strip_suffix("_0.png").expect("first index is 0");
    assert_eq!(second.strip_suffix("_1.png"), Some(stamp));
    assert_eq!(stamp.len(), 14);
    assert!(stamp.chars().all(|c| c.is_ascii_digit()));
}
