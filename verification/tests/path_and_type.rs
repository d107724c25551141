use grabbit::clipboard::{classify_extension, detect_file_type, FileType};
use grabbit::path::{extension, file_name};
use std::path::Path;

fn std_file_name(p: &str) -> Option<String> {
    Path::new(p).file_name().map(|n| n.to_str().unwrap().to_string())
}

fn std_extension(p: &str) -> Option<String> {
    Path::new(p).extension().map(|n| n.to_str().unwrap().to_string())
}

const PATHS: &[&str] = &[
    "", "/", ".", "..", "a", "a/", "a//", "a/.", "a/./", "./a", "/a/b", "/a/b/", "a/..",
    "a/../b", ".bashrc", "dir/.bashrc", "x.tar.gz", "x.", ".x.", "...", "a/b.c/d", "/tmp/a b.PNG",
    "//", "./", "/.", "a/b/./.", "file.PDF",
];

#[test]
fn file_name_agrees_with_std_path() {
    for p in PATHS {
        assert_eq!(file_name(p), std_file_name(p), "path {:?}", p);
    }
}

#[test]
fn extension_agrees_with_std_path() {
    for p in PATHS {
        let ours = file_name(p).and_then(|n| extension(&n));
        assert_eq!(ours, std_extension(p), "path {:?}", p);
    }
}

#[test]
fn detect_pdf_in_any_case() {
    assert!(matches!(detect_file_type("/home/u/report.PDF"), FileType::Pdf));
    assert!(matches!(detect_file_type("report.pdf"), FileType::Pdf));
}

#[test]
fn detect_images_keep_lower_case_extension() {
    for (p, e) in [("a.png", "png"), ("b.JPG", "jpg"), ("c.Jpeg", "jpeg"), ("d.bmp", "bmp"), ("e.gif", "gif"), ("f.WEBP", "webp")] {
        match detect_file_type(p) {
            FileType::Image(x) => assert_eq!(x, e),
            other => panic!("{:?} gave {:?}", p, other),
        }
    }
}

#[test]
fn detect_text_audio_video_document() {
    assert!(matches!(detect_file_type("notes.txt"), FileType::Text));
    assert!(matches!(detect_file_type("s.MP3"), FileType::Audio(ref e) if e == "mp3"));
    assert!(matches!(detect_file_type("s.flac"), FileType::Audio(ref e) if e == "flac"));
    assert!(matches!(detect_file_type("v.mkv"), FileType::Video(ref e) if e == "mkv"));
    assert!(matches!(detect_file_type("v.webm"), FileType::Video(ref e) if e == "webm"));
    assert!(matches!(detect_file_type("d.docx"), FileType::Document(ref e) if e == "docx"));
    assert!(matches!(detect_file_type("d.RTF"), FileType::Document(ref e) if e == "rtf"));
}

#[test]
fn detect_unknown_cases() {
    for p in ["noext", ".bashrc", "archive.tar.gz", "x.", "/", "a/..", "weird.pdfx"] {
        assert!(matches!(detect_file_type(p), FileType::Unknown), "path {:?}", p);
    }
}

#[test]
fn detect_uses_unicode_lower_case() {
    // U+212A KELVIN SIGN lower-cases to an ASCII 'k'.
    assert!(matches!(detect_file_type("film.M\u{212A}V"), FileType::Video(ref e) if e == "mkv"));
}

#[test]
fn classify_extension_exact_values() {
    assert!(matches!(classify_extension("pdf".to_string()), FileType::Pdf));
    assert!(matches!(classify_extension("PDF".to_string()), FileType::Unknown));
    assert!(matches!(classify_extension("ogg".to_string()), FileType::Audio(_)));
    assert!(matches!(classify_extension("".to_string()), FileType::Unknown));
}

#[test]
fn detection_ignores_ascii_case() {
    for (a, b) in [("x.Png", "y.pNG"), ("a.DOC", "b.doc"), ("m.MoV", "n.mov")] {
        assert_eq!(format!("{:?}", detect_file_type(a)), format!("{:?}", detect_file_type(b)));
    }
}
