use grabbit::clipboard::{
    extract_path_from_clipboard, plan_file_entry, shown_name, ClipboardRecord, ClipboardWatcher,
    FileInfo, FileType, NewText, Observation,
};

#[test]
fn nautilus_copy_gives_file_url_path() {
    let info = extract_path_from_clipboard("copy\nfile:///home/u/pic.png").unwrap();
    assert_eq!(info.path, "/home/u/pic.png");
    assert!(matches!(info.file_type, FileType::Image(ref e) if e == "png"));
}

#[test]
fn nautilus_cut_decodes_percent_escapes() {
    let info = extract_path_from_clipboard("cut\nfile:///tmp/a%20b.pdf\n").unwrap();
    assert_eq!(info.path, "/tmp/a b.pdf");
    assert!(matches!(info.file_type, FileType::Pdf));
}

#[test]
fn copy_skips_lines_that_are_not_file_urls() {
    let info =
        extract_path_from_clipboard("copy\nhttps://example.com/x\n  file:///srv/song.mp3  \r\nfile:///b.txt")
            .unwrap();
    assert_eq!(info.path, "/srv/song.mp3");
    assert!(matches!(info.file_type, FileType::Audio(_)));
}

#[test]
fn plain_path_found_by_pattern() {
    let info = extract_path_from_clipboard("open /usr/share/doc/readme.txt").unwrap();
    assert_eq!(info.path, "/usr/share/doc/readme.txt");
    assert!(matches!(info.file_type, FileType::Text));
}

#[test]
fn quoted_windows_path_found_by_pattern() {
    let info = extract_path_from_clipboard("\"C:\\Users\\me\\a.docx\"").unwrap();
    assert_eq!(info.path, "C:\\Users\\me\\a.docx");
}

#[test]
fn copy_without_file_url_falls_back_to_pattern() {
    let info = extract_path_from_clipboard("copy\nhttp://x/y").unwrap();
    assert_eq!(info.path, "p://x/y");
    let none = extract_path_from_clipboard("copy\nnothing");
    assert!(none.is_none());
}

#[test]
fn text_without_path_gives_none() {
    assert!(extract_path_from_clipboard("hello world").is_none());
    assert!(extract_path_from_clipboard("").is_none());
}

fn new_text(o: Observation) -> NewText {
    match o {
        Observation::New(n) => n,
        Observation::Unchanged => panic!("unchanged"),
    }
}

#[test]
fn watcher_handles_each_text_once() {
    let mut w = ClipboardWatcher::new();
    assert!(matches!(w.observe(String::new()), Observation::Unchanged));
    let n = new_text(w.observe("hello".to_string()));
    assert_eq!(n.text, "hello");
    assert_eq!(n.candidate.path, "hello");
    assert!(matches!(w.observe("hello".to_string()), Observation::Unchanged));
    let n = new_text(w.observe("copy\nfile:///a/b.gif".to_string()));
    assert_eq!(n.candidate.path, "/a/b.gif");
    assert!(matches!(n.candidate.file_type, FileType::Image(_)));
    assert!(matches!(n.record(true), ClipboardRecord::File(ref i) if i.path == "/a/b.gif"));
    assert!(matches!(w.observe("hello".to_string()), Observation::New(_)));
    assert_eq!(w.last_content, "hello");
}

#[test]
fn text_that_only_looks_like_a_path_is_kept_as_text() {
    let mut w = ClipboardWatcher::new();
    let n = new_text(w.observe("and/or".to_string()));
    assert_eq!(n.candidate.path, "/or");
    match n.record(false) {
        ClipboardRecord::Text(t) => assert_eq!(t, "and/or"),
        other => panic!("{:?}", other),
    }
}

#[test]
fn plain_path_is_a_piece_of_the_text() {
    let text = "see \"/tmp/x y.txt\" here";
    let info = extract_path_from_clipboard(text).unwrap();
    assert!(text.contains(&info.path));
}

#[test]
fn file_info_for_path_detects_type() {
    let info = FileInfo::for_path("/x/y.wav".to_string());
    assert_eq!(info.path, "/x/y.wav");
    assert!(matches!(info.file_type, FileType::Audio(_)));
}

#[test]
fn plan_for_each_kind_of_file() {
    let p = plan_file_entry(&FileInfo::for_path("/p/cat.png".to_string()));
    assert_eq!(p.content_type, "image");
    assert_eq!(p.display_text, "\u{1F5BC}\u{FE0F}  cat.png");
    assert!(p.attach_data);
    let p = plan_file_entry(&FileInfo::for_path("/p/r.pdf".to_string()));
    assert_eq!(p.content_type, "document");
    assert_eq!(p.display_text, "\u{1F4C4} r.pdf");
    assert!(!p.attach_data);
    let p = plan_file_entry(&FileInfo::for_path("/p/r.odt".to_string()));
    assert_eq!(p.content_type, "document");
    assert_eq!(p.display_text, "\u{1F4DD} r.odt");
    let p = plan_file_entry(&FileInfo::for_path("/p/s.ogg".to_string()));
    assert_eq!(p.content_type, "media");
    assert_eq!(p.display_text, "\u{1F3B5} s.ogg");
    assert!(!p.attach_data);
    let p = plan_file_entry(&FileInfo::for_path("/p/m.mov".to_string()));
    assert_eq!(p.content_type, "media");
    assert_eq!(p.display_text, "\u{1F3AC} m.mov");
    let p = plan_file_entry(&FileInfo::for_path("/p/notes.txt".to_string()));
    assert_eq!(p.content_type, "file");
    assert_eq!(p.display_text, "\u{1F4C1} notes.txt");
    assert!(p.attach_data);
    let p = plan_file_entry(&FileInfo::for_path("/".to_string()));
    assert_eq!(p.display_text, "\u{1F4C1} Unknown file");
}

#[test]
fn shown_name_falls_back() {
    assert_eq!(shown_name("/a/b.c"), "b.c");
    assert_eq!(shown_name(".."), "Unknown file");
}
