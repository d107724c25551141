use grabbit::storage::{items_from_entries, ClipboardEntry, ClipboardItem};

fn entry(ts: &str, text: Option<&str>) -> ClipboardEntry {
    ClipboardEntry {
        timestamp: ts.to_string(),
        device_name: "dev".to_string(),
        os_name: "linux".to_string(),
        user_name: "me".to_string(),
        content_type: "text".to_string(),
        text_content: text.map(|t| t.to_string()),
        encrypted_data: Some("QUJD".to_string()),
        file_path: None,
    }
}

#[test]
fn item_shows_text_and_date() {
    let item = ClipboardItem::from_entry(entry("2024-05-06T07:08:09+02:00", Some("hi")));
    assert_eq!(item.content, "hi");
    assert_eq!(item.time, "2024-05-06");
    assert_eq!(item.device, "dev");
    assert_eq!(item.os, "linux");
    assert_eq!(item.user, "me");
    assert_eq!(item.content_type, "text");
    assert_eq!(item.encoded_data.as_deref(), Some("QUJD"));
    assert_eq!(item.file_path, None);
}

#[test]
fn item_without_text_shows_file_data() {
    let item = ClipboardItem::from_entry(entry("no-date-separator", None));
    assert_eq!(item.content, "File data");
    assert_eq!(item.time, "no-date-separator");
}

#[test]
fn items_keep_order() {
    let items = items_from_entries(vec![entry("1T", Some("a")), entry("2T", None), entry("T3", Some("c"))]);
    let shown: Vec<(String, String)> = items.into_iter().map(|i| (i.content, i.time)).collect();
    assert_eq!(
        shown,
        vec![
            ("a".to_string(), "1".to_string()),
            ("File data".to_string(), "2".to_string()),
            ("c".to_string(), "".to_string())
        ]
    );
    assert!(items_from_entries(vec![]).is_empty());
}

#[test]
fn items_compare_by_all_texts() {
    let a = ClipboardItem::from_entry(entry("2024-01-01T00:00", Some("x")));
    let b = ClipboardItem::from_entry(entry("2024-01-01T23:59", Some("x")));
    assert!(a == b);
    let mut c = b.clone();
    c.file_path = Some("/p".to_string());
    assert!(a != c);
    let mut d = a.clone();
    d.content = "y".to_string();
    assert!(a != d);
}

#[test]
fn download_offered_for_files_and_images_with_data() {
    let mut item = ClipboardItem::from_entry(entry("t", Some("x")));
    assert!(!item.offers_download());
    item.content_type = "file".to_string();
    assert!(item.offers_download());
    item.content_type = "image".to_string();
    assert!(item.offers_download());
    item.encoded_data = None;
    assert!(!item.offers_download());
}
