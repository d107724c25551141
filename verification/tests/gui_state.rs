use base64::Engine;
use grabbit::gui::{
    CompressionQuality, ConnectionMode, DataRetention, Display, Effect, Messages, Page,
};
use grabbit::storage::ClipboardItem;

fn item(content: &str, encoded: Option<&str>, path: Option<&str>) -> ClipboardItem {
    ClipboardItem {
        content: content.to_string(),
        device: "d".to_string(),
        os: "o".to_string(),
        time: "t".to_string(),
        user: "u".to_string(),
        content_type: "file".to_string(),
        encoded_data: encoded.map(|s| s.to_string()),
        file_path: path.map(|s| s.to_string()),
    }
}

fn fresh() -> Display {
    Display::new(vec![item("a", None, None), item("\u{1F5BC}\u{FE0F}  cat.png", Some("QUJD"), None)], "10.0.0.2".to_string())
}

#[test]
fn new_display_defaults() {
    let d = fresh();
    assert_eq!(d.current_page, Page::Dashboard);
    assert_eq!(d.clip_data.len(), 2);
    assert_eq!(d.host_ip, "10.0.0.2");
    assert_eq!(d.port, "7879");
    assert_eq!(d.host_duration, "30 minutes");
    assert_eq!(d.custom_save_dir, "/home/aadhiishvar/Downloads");
    assert!(d.darkmode && d.secure_transfer);
    assert_eq!(d.compression_quality, CompressionQuality::Default);
    assert_eq!(d.data_retention, DataRetention::Manual);
    assert_eq!(d.connection_mode, ConnectionMode::Host);
    assert_eq!(d.connected_devices + d.active_transfers + d.connected_users + d.file_transfers, 0);
    assert_eq!(d.title(), "GraBbit");
}

#[test]
fn tabs_reload_only_on_dashboard() {
    let mut d = fresh();
    assert!(matches!(d.update(Messages::TabChanged(Page::Settings)), Effect::Nothing));
    assert_eq!(d.current_page, Page::Settings);
    assert!(matches!(d.update(Messages::TabChanged(Page::Dashboard)), Effect::LoadHistory));
    assert!(matches!(d.update(Messages::ReloadData), Effect::ReloadHistory));
    d.history_loaded(vec![]);
    assert!(d.clip_data.is_empty());
}

#[test]
fn settings_messages_set_fields() {
    let mut d = fresh();
    d.update(Messages::ToggleTheme);
    assert!(!d.darkmode);
    d.update(Messages::ToggleTheme);
    assert!(d.darkmode);
    d.update(Messages::SecureTransferToggled(false));
    assert!(!d.secure_transfer);
    d.update(Messages::CompressionChanged(CompressionQuality::High));
    assert_eq!(d.compression_quality, CompressionQuality::High);
    d.update(Messages::DataRetentionChanged(DataRetention::OneWeek));
    assert_eq!(d.data_retention, DataRetention::OneWeek);
    d.update(Messages::ConnectionModeChanged(ConnectionMode::Node));
    assert_eq!(d.connection_mode, ConnectionMode::Node);
    d.update(Messages::HostIPChanged("1.2.3.4".to_string()));
    d.update(Messages::PortChanged("80".to_string()));
    d.update(Messages::HostDurationChanged("1 hour".to_string()));
    d.update(Messages::SearchChanged("cat".to_string()));
    d.update(Messages::CustomSaveDirChanged("/tmp".to_string()));
    d.update(Messages::ImageDecodeInputChanged("xyz".to_string()));
    assert_eq!((d.host_ip.as_str(), d.port.as_str(), d.host_duration.as_str()), ("1.2.3.4", "80", "1 hour"));
    assert_eq!((d.search_text.as_str(), d.custom_save_dir.as_str(), d.image_decode_input.as_str()), ("cat", "/tmp", "xyz"));
}

#[test]
fn hosting_and_connecting_count() {
    let mut d = fresh();
    match d.update(Messages::StartHosting) {
        Effect::AnnounceHosting { host_ip, port } => assert_eq!((host_ip.as_str(), port.as_str()), ("10.0.0.2", "7879")),
        other => panic!("{:?}", other),
    }
    assert_eq!(d.connected_devices, 1);
    assert!(matches!(d.update(Messages::ConnectToHost), Effect::AnnounceConnecting { .. }));
    assert_eq!(d.active_transfers, 1);
}

#[test]
fn clear_all_empties_history() {
    let mut d = fresh();
    assert!(matches!(d.update(Messages::ClearAll), Effect::ClearHistory));
    assert!(d.clip_data.is_empty());
}

#[test]
fn decode_image_gives_bytes() {
    let mut d = fresh();
    let text = base64::engine::general_purpose::STANDARD.encode([1u8, 2, 3, 250]);
    d.update(Messages::ImageDecodeInputChanged(text));
    match d.update(Messages::DecodeImage) {
        Effect::SaveDecodedImage { dir, bytes } => {
            assert_eq!(dir, "/home/aadhiishvar/Downloads");
            assert_eq!(bytes, vec![1, 2, 3, 250]);
        }
        other => panic!("{:?}", other),
    }
    assert!(!d.image_decode_input.is_empty());
    d.image_saved();
    assert!(d.image_decode_input.is_empty());
    for bad in ["QUJ", "QUJD=", "QR==", "a b=", "====" ] {
        d.update(Messages::ImageDecodeInputChanged(bad.to_string()));
        assert!(matches!(d.update(Messages::DecodeImage), Effect::Nothing), "{:?}", bad);
    }
    d.update(Messages::ImageDecodeInputChanged(String::new()));
    assert!(matches!(d.update(Messages::DecodeImage), Effect::SaveDecodedImage { ref bytes, .. } if bytes.is_empty()));
}

#[test]
fn latest_image_found() {
    let mut d = fresh();
    assert!(matches!(d.update(Messages::ShowLatestImageData), Effect::ReportImageFound { ref content } if content.contains("cat.png")));
    assert_eq!(d.image_decode_input, "Image data found - check console for details");
    d.update(Messages::ClearAll);
    d.update(Messages::ImageDecodeInputChanged("keep".to_string()));
    assert!(matches!(d.update(Messages::ShowLatestImageData), Effect::ReportNoImage));
    assert_eq!(d.image_decode_input, "keep");
}

#[test]
fn download_and_copy_encoded_data() {
    let mut d = fresh();
    match d.update(Messages::DownloadFile(item("x", Some("QUJD"), Some("/a/b/photo.png")))) {
        Effect::SaveDownload { dir, file_name, bytes } => {
            assert_eq!(dir, "/home/aadhiishvar/Downloads");
            assert_eq!(file_name.as_deref(), Some("photo.png"));
            assert_eq!(bytes, b"ABC".to_vec());
        }
        other => panic!("{:?}", other),
    }
    assert!(matches!(d.update(Messages::DownloadFile(item("x", Some("QUJD"), Some("/")))), Effect::SaveDownload { file_name: Some(ref n), .. } if n == "downloaded_file"));
    assert!(matches!(d.update(Messages::DownloadFile(item("x", Some("QUJD"), None))), Effect::SaveDownload { file_name: None, .. }));
    assert!(matches!(d.update(Messages::DownloadFile(item("x", Some("!!"), None))), Effect::Nothing));
    assert!(matches!(d.update(Messages::DownloadFile(item("x", None, None))), Effect::Nothing));
    assert!(matches!(d.update(Messages::CopyEncryptedData(item("x", Some("QUJD"), None))), Effect::ReportCopied));
    assert_eq!(d.image_decode_input, "QUJD");
    assert!(matches!(d.update(Messages::CopyEncryptedData(item("x", None, None))), Effect::Nothing));
    assert_eq!(d.image_decode_input, "QUJD");
}

#[test]
fn retention_labels() {
    assert_eq!(DataRetention::Manual.label(), "Until Manual Deletion");
    assert_eq!(DataRetention::OneDay.label(), "1 Day");
    assert_eq!(DataRetention::OneWeek.label(), "1 Week");
    assert_eq!(DataRetention::OneMonth.label(), "1 Month");
}

#[test]
fn retention_choices_in_order() {
    assert_eq!(
        DataRetention::all(),
        vec![DataRetention::Manual, DataRetention::OneDay, DataRetention::OneWeek, DataRetention::OneMonth]
    );
}
