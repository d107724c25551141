//! What a piece of clipboard text refers to: a file path, and the kind of
//! file that its extension names.

use vstd::prelude::*;
use vstd::string::*;
use crate::text::{chars_of, contains_seq, occurs_at, has_prefix, same_chars, lines_of, split_lines, starts_with, trim, trim_by, views, TrimSet};
use crate::path::{extension, file_name, file_name_of, path_extension};

verus! {

/// Kind of file, by its extension (the lower-case extension is kept where
/// the kind covers several).
#[derive(Debug, Clone)]
pub enum FileType {
    Pdf,
    Image(String),
    Text,
    Audio(String),
    Video(String),
    Document(String),
    Unknown,
}

/// What a `FileType` says, with its extension as characters.
pub enum FileTypeView {
    Pdf,
    Image(Seq<char>),
    Text,
    Audio(Seq<char>),
    Video(Seq<char>),
    Document(Seq<char>),
    Unknown,
}

impl View for FileType {
    type V = FileTypeView;

    open spec fn view(&self) -> FileTypeView {
        match self {
            FileType::Pdf => FileTypeView::Pdf,
            FileType::Image(e) => FileTypeView::Image(e@),
            FileType::Text => FileTypeView::Text,
            FileType::Audio(e) => FileTypeView::Audio(e@),
            FileType::Video(e) => FileTypeView::Video(e@),
            FileType::Document(e) => FileTypeView::Document(e@),
            FileType::Unknown => FileTypeView::Unknown,
        }
    }
}

/// A path found in the clipboard, with the kind of file it names.
#[derive(Debug, Clone)]
pub struct FileInfo {
    pub path: String,
    pub file_type: FileType,
}

pub open spec fn is_image_extension(e: Seq<char>) -> bool {
    ||| e == seq!['p', 'n', 'g']
    ||| e == seq!['j', 'p', 'g']
    ||| e == seq!['j', 'p', 'e', 'g']
    ||| e == seq!['b', 'm', 'p']
    ||| e == seq!['g', 'i', 'f']
    ||| e == seq!['w', 'e', 'b', 'p']
}

pub open spec fn is_audio_extension(e: Seq<char>) -> bool {
    ||| e == seq!['m', 'p', '3']
    ||| e == seq!['w', 'a', 'v']
    ||| e == seq!['o', 'g', 'g']
    ||| e == seq!['f', 'l', 'a', 'c']
}

pub open spec fn is_video_extension(e: Seq<char>) -> bool {
    ||| e == seq!['m', 'p', '4']
    ||| e == seq!['a', 'v', 'i']
    ||| e == seq!['m', 'k', 'v']
    ||| e == seq!['m', 'o', 'v']
    ||| e == seq!['w', 'e', 'b', 'm']
}

pub open spec fn is_document_extension(e: Seq<char>) -> bool {
    ||| e == seq!['o', 'd', 't']
    ||| e == seq!['d', 'o', 'c', 'x']
    ||| e == seq!['d', 'o', 'c']
    ||| e == seq!['r', 't', 'f']
}

/// The kind of file that the (lower-case) extension `e` names.
pub open spec fn classify(e: Seq<char>) -> FileTypeView {
    if e == seq!['p', 'd', 'f'] {
        FileTypeView::Pdf
    } else if is_image_extension(e) {
        FileTypeView::Image(e)
    } else if e == seq!['t', 'x', 't'] {
        FileTypeView::Text
    } else if is_audio_extension(e) {
        FileTypeView::Audio(e)
    } else if is_video_extension(e) {
        FileTypeView::Video(e)
    } else if is_document_extension(e) {
        FileTypeView::Document(e)
    } else {
        FileTypeView::Unknown
    }
}

/// What `str::to_lowercase` returns for `s`: each character replaced by its
/// Unicode lower-case mapping.
pub uninterp spec fn lowercase(s: Seq<char>) -> Seq<char>;

/// Whether every character of `s` is ASCII.
pub open spec fn all_ascii(s: Seq<char>) -> bool {
    forall|i: int| 0 <= i < s.len() ==> (#[trigger] s[i] as u32) < 128
}

/// The ASCII lower case of `c`: `A`..`Z` become `a`..`z`, anything else
/// stays.
pub open spec fn ascii_lower(c: char) -> char {
    let u = c as u32;
    if 65 <= u <= 90 {
        ((u + 32) as u32) as char
    } else {
        c
    }
}

/// `s` with each character in ASCII lower case.
pub open spec fn ascii_lowercase(s: Seq<char>) -> Seq<char> {
    Seq::new(s.len(), |i: int| ascii_lower(s[i]))
}

/// `str::to_lowercase`. Trusted: its result is `lowercase` of the argument;
/// on ASCII text it maps `A`..`Z` to `a`..`z` and keeps every other
/// character (the Unicode lower-case mapping of ASCII); nothing more is
/// stated of it.
#[verifier::external_body]
fn to_lowercase(s: &str) -> (r: String)
    ensures
        r@ == lowercase(s@),
        all_ascii(s@) ==> r@ == ascii_lowercase(s@),
{
    s.to_lowercase()
}

/// The kind of file that the path `p` names, by its extension in lower
/// case.
pub open spec fn detected_type(p: Seq<char>) -> FileTypeView {
    match path_extension(p) {
        Some(e) => if all_ascii(e) {
            classify(ascii_lowercase(e))
        } else {
            classify(lowercase(e))
        },
        None => FileTypeView::Unknown,
    }
}

/// Detection ignores the case of an ASCII extension: two paths whose
/// extensions differ only in the case of ASCII letters name the same kind of
/// file.
pub proof fn law_detection_ignores_ascii_case(p: Seq<char>, q: Seq<char>, e1: Seq<char>, e2: Seq<
    char,
>)
    requires
        path_extension(p) == Some(e1),
        path_extension(q) == Some(e2),
        all_ascii(e1),
        all_ascii(e2),
        ascii_lowercase(e1) == ascii_lowercase(e2),
    ensures
        detected_type(p) == detected_type(q),
{
}

/// The kind of file that the lower-case extension `ext` names.
pub fn classify_extension(ext: String) -> (t: FileType)
    ensures
        t@ == classify(ext@),
{
    let e = chars_of(ext.as_str());
    let e = e.as_slice();
    if same_chars(e, &['p', 'd', 'f']) {
        FileType::Pdf
    } else if same_chars(e, &['p', 'n', 'g']) || same_chars(e, &['j', 'p', 'g']) || same_chars(
        e,
        &['j', 'p', 'e', 'g'],
    ) || same_chars(e, &['b', 'm', 'p']) || same_chars(e, &['g', 'i', 'f']) || same_chars(
        e,
        &['w', 'e', 'b', 'p'],
    ) {
        FileType::Image(ext)
    } else if same_chars(e, &['t', 'x', 't']) {
        FileType::Text
    } else if same_chars(e, &['m', 'p', '3']) || same_chars(e, &['w', 'a', 'v']) || same_chars(
        e,
        &['o', 'g', 'g'],
    ) || same_chars(e, &['f', 'l', 'a', 'c']) {
        FileType::Audio(ext)
    } else if same_chars(e, &['m', 'p', '4']) || same_chars(e, &['a', 'v', 'i']) || same_chars(
        e,
        &['m', 'k', 'v'],
    ) || same_chars(e, &['m', 'o', 'v']) || same_chars(e, &['w', 'e', 'b', 'm']) {
        FileType::Video(ext)
    } else if same_chars(e, &['o', 'd', 't']) || same_chars(e, &['d', 'o', 'c', 'x'])
        || same_chars(e, &['d', 'o', 'c']) || same_chars(e, &['r', 't', 'f']) {
        FileType::Document(ext)
    } else {
        FileType::Unknown
    }
}

/// The kind of file that `path` names: its extension, in lower case,
/// classified; `Unknown` when it has none.
pub fn detect_file_type(path: &str) -> (t: FileType)
    ensures
        t@ == detected_type(path@),
{
    match file_name(path) {
        Some(name) => match extension(name.as_str()) {
            Some(ext) => classify_extension(to_lowercase(ext.as_str())),
            None => FileType::Unknown,
        },
        None => FileType::Unknown,
    }
}

/// The table of kinds, extension by extension: "pdf" is a PDF; "png", "jpg",
/// "jpeg", "bmp", "gif" and "webp" are images; "txt" is text; "mp3", "wav",
/// "ogg" and "flac" are audio; "mp4", "avi", "mkv", "mov" and "webm" are
/// video; "odt", "docx", "doc" and "rtf" are documents, each kind keeping the
/// extension where it has one; every other extension is of no known kind.
pub proof fn law_extension_kinds(l: Seq<char>)
    ensures
        l == seq!['p', 'd', 'f'] ==> classify(l) == FileTypeView::Pdf,
        l == seq!['p', 'n', 'g'] || l == seq!['j', 'p', 'g'] || l == seq!['j', 'p', 'e', 'g']
            || l == seq!['b', 'm', 'p'] || l == seq!['g', 'i', 'f'] || l == seq![
            'w',
            'e',
            'b',
            'p',
        ] ==> classify(l) == FileTypeView::Image(l),
        l == seq!['t', 'x', 't'] ==> classify(l) == FileTypeView::Text,
        l == seq!['m', 'p', '3'] || l == seq!['w', 'a', 'v'] || l == seq!['o', 'g', 'g'] || l
            == seq!['f', 'l', 'a', 'c'] ==> classify(l) == FileTypeView::Audio(l),
        l == seq!['m', 'p', '4'] || l == seq!['a', 'v', 'i'] || l == seq!['m', 'k', 'v'] || l
            == seq!['m', 'o', 'v'] || l == seq!['w', 'e', 'b', 'm'] ==> classify(l)
            == FileTypeView::Video(l),
        l == seq!['o', 'd', 't'] || l == seq!['d', 'o', 'c', 'x'] || l == seq!['d', 'o', 'c']
            || l == seq!['r', 't', 'f'] ==> classify(l) == FileTypeView::Document(l),
        l != seq!['p', 'd', 'f'] && l != seq!['p', 'n', 'g'] && l != seq!['j', 'p', 'g'] && l
            != seq!['j', 'p', 'e', 'g'] && l != seq!['b', 'm', 'p'] && l != seq!['g', 'i', 'f']
            && l != seq!['w', 'e', 'b', 'p'] && l != seq!['t', 'x', 't'] && l != seq![
            'm',
            'p',
            '3',
        ] && l != seq!['w', 'a', 'v'] && l != seq!['o', 'g', 'g'] && l != seq![
            'f',
            'l',
            'a',
            'c',
        ] && l != seq!['m', 'p', '4'] && l != seq!['a', 'v', 'i'] && l != seq!['m', 'k', 'v']
            && l != seq!['m', 'o', 'v'] && l != seq!['w', 'e', 'b', 'm'] && l != seq![
            'o',
            'd',
            't',
        ] && l != seq!['d', 'o', 'c', 'x'] && l != seq!['d', 'o', 'c'] && l != seq![
            'r',
            't',
            'f',
        ] ==> classify(l) == FileTypeView::Unknown,
{
}

/// A path is detected by its ASCII extension in lower case: "x.MP4" and
/// "x.mp4" are video "mp4", "x.Png" is image "png", "x.PDF" is a PDF, and
/// so on through the table of kinds; a path whose extension is of no known
/// kind, or that has no extension, is `Unknown`.
pub proof fn law_detected_kinds(p: Seq<char>, e: Seq<char>)
    requires
        path_extension(p) == Some(e),
        all_ascii(e),
    ensures
        ascii_lowercase(e) == seq!['p', 'd', 'f'] ==> detected_type(p) == FileTypeView::Pdf,
        ascii_lowercase(e) == seq!['t', 'x', 't'] ==> detected_type(p) == FileTypeView::Text,
        ascii_lowercase(e) == seq!['p', 'n', 'g'] ==> detected_type(p) == FileTypeView::Image(
            seq!['p', 'n', 'g'],
        ),
        ascii_lowercase(e) == seq!['j', 'p', 'g'] ==> detected_type(p) == FileTypeView::Image(
            seq!['j', 'p', 'g'],
        ),
        ascii_lowercase(e) == seq!['m', 'p', '3'] ==> detected_type(p) == FileTypeView::Audio(
            seq!['m', 'p', '3'],
        ),
        ascii_lowercase(e) == seq!['m', 'p', '4'] ==> detected_type(p) == FileTypeView::Video(
            seq!['m', 'p', '4'],
        ),
        ascii_lowercase(e) == seq!['w', 'e', 'b', 'm'] ==> detected_type(p)
            == FileTypeView::Video(seq!['w', 'e', 'b', 'm']),
        ascii_lowercase(e) == seq!['d', 'o', 'c', 'x'] ==> detected_type(p)
            == FileTypeView::Document(seq!['d', 'o', 'c', 'x']),
        ascii_lowercase(e) == seq!['z', 'i', 'p'] ==> detected_type(p) == FileTypeView::Unknown,
        detected_type(p) == classify(ascii_lowercase(e)),
{
    law_extension_kinds(ascii_lowercase(e));
}

/// A path with no extension is of no known kind.
pub proof fn law_no_extension_unknown(p: Seq<char>)
    requires
        path_extension(p) is None,
    ensures
        detected_type(p) == FileTypeView::Unknown,
{
}

/// The view of an optional string.
pub open spec fn opt_view(o: Option<String>) -> Option<Seq<char>> {
    match o {
        Some(s) => Some(s@),
        None => None,
    }
}

/// What `url::Url::parse` makes of `s`: `None` where it refuses `s`, else the
/// URL's scheme and the file path that `Url::to_file_path` gives (`None`
/// where it gives none, or one that is not UTF-8).
pub uninterp spec fn parsed_url(s: Seq<char>) -> Option<(Seq<char>, Option<Seq<char>>)>;

/// `url::Url::parse`, read through `Url::scheme` and `Url::to_file_path`.
/// Trusted: the result is `parsed_url` of the argument; nothing more is
/// stated of the URL grammar.
#[verifier::external_body]
fn parse_url(s: &str) -> (r: Option<(String, Option<String>)>)
    ensures
        match r {
            Some((scheme, path)) => parsed_url(s@) == Some((scheme@, opt_view(path))),
            None => parsed_url(s@) is None,
        },
{
    match url::Url::parse(s) {
        Ok(u) => Some(
            (
                u.scheme().to_string(),
                u.to_file_path().ok().and_then(|p| p.to_str().map(|t| t.to_string())),
            ),
        ),
        Err(_) => None,
    }
}

/// What `regex::Regex::new(pattern)` then `Regex::find(haystack)` give: the
/// text of the leftmost-first match, or `None` where the pattern does not
/// compile or nothing matches.
pub uninterp spec fn regex_first_match(pattern: Seq<char>, haystack: Seq<char>) -> Option<
    Seq<char>,
>;

/// `regex::Regex::new` and `Regex::find`. Trusted: the result is
/// `regex_first_match` of the arguments, and a match is a piece of the
/// haystack; nothing more is stated of the regular-expression semantics.
#[verifier::external_body]
fn regex_find(pattern: &str, haystack: &str) -> (r: Option<String>)
    ensures
        opt_view(r) == regex_first_match(pattern@, haystack@),
        r matches Some(m) ==> contains_seq(haystack@, m@),
{
    match regex::Regex::new(pattern) {
        Ok(re) => re.find(haystack).map(|m| m.as_str().to_string()),
        Err(_) => None,
    }
}

/// The pattern of a plain-text path: an optional drive letter, a separator,
/// then word characters, white space, `.`, `-` and separators.
pub const PATH_PATTERN: &'static str = r"(?:(?:[A-Za-z]:)?[/\\][\w\s.\-/\\]+)";

/// The file path that a line of a file-manager copy names: a `file:` URL,
/// white space around it ignored.
pub open spec fn file_url_path(line: Seq<char>) -> Option<Seq<char>> {
    match parsed_url(trim(line, TrimSet::WhiteSpace)) {
        Some((scheme, Some(p))) => if scheme == seq!['f', 'i', 'l', 'e'] {
            Some(p)
        } else {
            None
        },
        _ => None,
    }
}

/// The path of the first of `lines` that is a `file:` URL with a path.
pub open spec fn first_file_url_path(lines: Seq<Seq<char>>) -> Option<Seq<char>>
    decreases lines.len(),
{
    if lines.len() == 0 {
        None
    } else {
        match file_url_path(lines[0]) {
            Some(p) => Some(p),
            None => first_file_url_path(lines.drop_first()),
        }
    }
}

/// Whether `text` is a file-manager copy or cut: `copy` or `cut` on its
/// first line, the URLs of the files on the next ones.
pub open spec fn is_file_list(text: Seq<char>) -> bool {
    has_prefix(text, seq!['c', 'o', 'p', 'y', '\n']) || has_prefix(text, seq!['c', 'u', 't', '\n'])
}

/// The first file URL of a file-manager copy, if `text` is one.
pub open spec fn listed_path(text: Seq<char>) -> Option<Seq<char>> {
    if is_file_list(text) {
        first_file_url_path(split_lines(text).drop_first())
    } else {
        None
    }
}

/// The path that clipboard text refers to: the first file URL of a
/// file-manager copy, else the first match of `PATH_PATTERN` without
/// surrounding double quotes.
pub open spec fn extracted_path(text: Seq<char>) -> Option<Seq<char>> {
    match listed_path(text) {
        Some(p) => Some(p),
        None => match regex_first_match(PATH_PATTERN@, text) {
            Some(m) => Some(trim(m, TrimSet::Quote)),
            None => None,
        },
    }
}

/// The first line, among `lines`, that is a `file:` URL with a path gives
/// that path; no such line gives none.
proof fn lemma_first_file_url_path(lines: Seq<Seq<char>>, i: int)
    requires
        0 <= i <= lines.len(),
        forall|j: int| 0 <= j < i ==> file_url_path(#[trigger] lines[j]) is None,
        i < lines.len() ==> file_url_path(lines[i]) is Some,
    ensures
        first_file_url_path(lines) == (if i < lines.len() {
            file_url_path(lines[i])
        } else {
            None
        }),
    decreases i,
{
    if lines.len() > 0 && i > 0 {
        let rest = lines.drop_first();
        assert forall|j: int| 0 <= j < i - 1 implies file_url_path(#[trigger] rest[j]) is None by {
            assert(rest[j] == lines[j + 1]);
        }
        assert(file_url_path(lines[0]) is None);
        lemma_first_file_url_path(rest, i - 1);
        if i < lines.len() {
            assert(rest[i - 1] == lines[i]);
        }
    }
}

/// Where a file-manager copy or cut points (text that starts with "copy" or
/// "cut" and a line feed): to the path of the first of its following lines
/// that is a `file:` URL with a path; where no line is one, to the first
/// plain-text path that the pattern finds, double quotes around it removed,
/// or to nothing.
pub proof fn law_clipboard_path(text: Seq<char>, i: int)
    requires
        1 <= i <= split_lines(text).len(),
        forall|j: int| 1 <= j < i ==> file_url_path(#[trigger] split_lines(text)[j]) is None,
        i < split_lines(text).len() ==> file_url_path(split_lines(text)[i]) is Some,
    ensures
        (has_prefix(text, seq!['c', 'o', 'p', 'y', '\n']) || has_prefix(
            text,
            seq!['c', 'u', 't', '\n'],
        )) && i < split_lines(text).len() ==> extracted_path(text) == file_url_path(
            split_lines(text)[i],
        ),
        (has_prefix(text, seq!['c', 'o', 'p', 'y', '\n']) || has_prefix(
            text,
            seq!['c', 'u', 't', '\n'],
        )) && i == split_lines(text).len() ==> extracted_path(text) == match
            regex_first_match(PATH_PATTERN@, text) {
            Some(m) => Some(trim(m, TrimSet::Quote)),
            None => None,
        },
{
    let lines = split_lines(text);
    let rest = lines.drop_first();
    assert forall|j: int| 0 <= j < i - 1 implies file_url_path(#[trigger] rest[j]) is None by {
        assert(rest[j] == lines[j + 1]);
    }
    if i < lines.len() {
        assert(rest[i - 1] == lines[i]);
    }
    lemma_first_file_url_path(rest, i - 1);
}

/// Text that is not a file-manager copy or cut points to the first
/// plain-text path that the pattern finds in it, double quotes around it
/// removed, or to nothing.
pub proof fn law_plain_text_path(text: Seq<char>)
    requires
        !has_prefix(text, seq!['c', 'o', 'p', 'y', '\n']),
        !has_prefix(text, seq!['c', 'u', 't', '\n']),
    ensures
        extracted_path(text) == match regex_first_match(PATH_PATTERN@, text) {
            Some(m) => Some(trim(m, TrimSet::Quote)),
            None => None,
        },
{
}

/// The path of the first `file:` URL among the lines `lines[from..]`.
fn first_listed_path(lines: &Vec<String>, from: usize) -> (r: Option<String>)
    requires
        from <= lines@.len(),
    ensures
        opt_view(r) == first_file_url_path(views(lines@).skip(from as int)),
{
    let mut i: usize = from;
    while i < lines.len()
        invariant
            from <= i <= lines@.len(),
            first_file_url_path(views(lines@).skip(from as int)) == first_file_url_path(
                views(lines@).skip(i as int),
            ),
        decreases lines@.len() - i,
    {
        let ghost rest = views(lines@).skip(i as int);
        assert(rest[0] == lines@[i as int]@);
        assert(rest.drop_first() =~= views(lines@).skip(i + 1));
        let line = trim_by(lines[i].as_str(), TrimSet::WhiteSpace);
        match parse_url(line.as_str()) {
            Some((scheme, path)) => {
                let sc = chars_of(scheme.as_str());
                if same_chars(sc.as_slice(), &['f', 'i', 'l', 'e']) {
                    match path {
                        Some(p) => {
                            return Some(p);
                        },
                        None => {},
                    }
                }
            },
            None => {},
        }
        i = i + 1;
    }
    assert(views(lines@).skip(i as int).len() == 0);
    None
}

/// The file that clipboard text refers to, if any: a path found in it, with
/// the kind of file that the path's extension names.
pub fn extract_path_from_clipboard(text: &str) -> (r: Option<FileInfo>)
    ensures
        r is None <==> extracted_path(text@) is None,
        r matches Some(info) ==> extracted_path(text@) == Some(info.path@) && info.file_type@
            == detected_type(info.path@),
        listed_path(text@) is None ==> (r matches Some(info) ==> contains_seq(text@, info.path@)),
{
    let cs = chars_of(text);
    let listed = if starts_with(cs.as_slice(), &['c', 'o', 'p', 'y', '\n']) || starts_with(
        cs.as_slice(),
        &['c', 'u', 't', '\n'],
    ) {
        let lines = lines_of(text);
        if lines.len() == 0 {
            assert(views(lines@).skip(0) =~= views(lines@));
            first_listed_path(&lines, 0)
        } else {
            assert(views(lines@).skip(1) =~= split_lines(text@).drop_first());
            first_listed_path(&lines, 1)
        }
    } else {
        None
    };
    match listed {
        Some(path) => {
            let file_type = detect_file_type(path.as_str());
            Some(FileInfo { path, file_type })
        },
        None => match regex_find(PATH_PATTERN, text) {
            Some(m) => {
                let path = trim_by(m.as_str(), TrimSet::Quote);
                proof {
                    let i = choose|i: int| occurs_at(text@, m@, i);
                    let (a, b) = choose|a: int, b: int|
                        0 <= a <= b <= m@.len() && path@ == m@.subrange(a, b);
                    assert(text@.subrange(i + a, i + a + path@.len()) =~= path@);
                    assert(occurs_at(text@, path@, i + a));
                }
                let file_type = detect_file_type(path.as_str());
                Some(FileInfo { path, file_type })
            },
            None => None,
        },
    }
}

impl FileInfo {
    /// The file at `path`, with the kind that its extension names.
    pub fn for_path(path: String) -> (info: FileInfo)
        ensures
            info.path == path,
            info.file_type@ == detected_type(path@),
    {
        let file_type = detect_file_type(path.as_str());
        FileInfo { path, file_type }
    }
}

/// The path that new clipboard text may name: the path found in it, else
/// the text itself.
pub open spec fn candidate_path(text: Seq<char>) -> Seq<char> {
    match extracted_path(text) {
        Some(p) => p,
        None => text,
    }
}

/// New clipboard text, with the path it may name.
#[derive(Debug)]
pub struct NewText {
    pub text: String,
    pub candidate: FileInfo,
}

/// What a new clipboard reading turned out to be.
#[derive(Debug)]
pub enum Observation {
    /// The same text as the last reading: nothing to do.
    Unchanged,
    /// New text.
    New(NewText),
}

/// How new clipboard text is recorded in the history.
#[derive(Debug)]
pub enum ClipboardRecord {
    /// As the file that it names.
    File(FileInfo),
    /// As text, exactly as copied.
    Text(String),
}

/// Watches the clipboard text, so that each new text is handled once.
#[derive(Debug)]
pub struct ClipboardWatcher {
    pub last_content: String,
}

/// One reading of the clipboard: `current` after `last`, giving `o` and
/// leaving `new_last` as the last text seen.
pub open spec fn observed(last: Seq<char>, current: Seq<char>, o: Observation, new_last: Seq<
    char,
>) -> bool {
    if current == last {
        o is Unchanged && new_last == last
    } else {
        &&& new_last == current
        &&& o matches Observation::New(n)
        &&& n.text@ == current
        &&& n.candidate.path@ == candidate_path(current)
        &&& n.candidate.file_type@ == detected_type(n.candidate.path@)
    }
}

/// How new text is recorded: as the file its candidate path names when
/// that path names a file, else as the text itself.
pub open spec fn records(n: NewText, names_file: bool, r: ClipboardRecord) -> bool {
    if names_file {
        r matches ClipboardRecord::File(info) && info == n.candidate
    } else {
        r matches ClipboardRecord::Text(t) && t == n.text
    }
}

impl ClipboardWatcher {
    /// A watcher that has seen only the empty text.
    pub fn new() -> (w: ClipboardWatcher)
        ensures
            w.last_content@.len() == 0,
    {
        ClipboardWatcher { last_content: String::new() }
    }

    /// Take a new reading of the clipboard text.
    pub fn observe(&mut self, current: String) -> (o: Observation)
        ensures
            observed(old(self).last_content@, current@, o, final(self).last_content@),
    {
        if current == self.last_content {
            return Observation::Unchanged;
        }
        self.last_content = current.clone();
        let candidate = match extract_path_from_clipboard(current.as_str()) {
            Some(info) => info,
            None => FileInfo::for_path(current.clone()),
        };
        Observation::New(NewText { text: current, candidate })
    }
}

impl NewText {
    /// The record of this text, given whether its candidate path names a
    /// file on disk.
    pub fn record(self, names_file: bool) -> (r: ClipboardRecord)
        ensures
            records(self, names_file, r),
    {
        if names_file {
            ClipboardRecord::File(self.candidate)
        } else {
            ClipboardRecord::Text(self.text)
        }
    }
}

/// New text whose candidate path names no file is recorded as text, exactly
/// as it was copied.
pub proof fn law_text_naming_no_file_is_kept(
    last: Seq<char>,
    current: Seq<char>,
    n: NewText,
    after: Seq<char>,
    r: ClipboardRecord,
)
    requires
        observed(last, current, Observation::New(n), after),
        records(n, false, r),
    ensures
        r matches ClipboardRecord::Text(t) && t@ == current,
{
}

/// Text that was handled is not handled again while it stays in the
/// clipboard: a second reading of the same text is `Unchanged`.
pub proof fn law_same_text_handled_once(
    last: Seq<char>,
    current: Seq<char>,
    o1: Observation,
    after1: Seq<char>,
    o2: Observation,
    after2: Seq<char>,
)
    requires
        observed(last, current, o1, after1),
        observed(after1, current, o2, after2),
    ensures
        o2 is Unchanged,
        after2 == current,
{
}

/// Each reading is compared with the last text seen: a text that differs from
/// it in any way is new, is handed on whole and becomes the last text seen; a
/// reading is `Unchanged` exactly when it equals the last text, which then
/// stays. New text comes with the path it points to (the text itself where
/// it points to none) and the kind of file that path names.
pub proof fn law_new_text_is_handled(
    last: Seq<char>,
    current: Seq<char>,
    o: Observation,
    after: Seq<char>,
)
    requires
        observed(last, current, o, after),
    ensures
        (o is Unchanged) <==> current =~= last,
        current != last ==> (o matches Observation::New(n) && n.text@ == current),
        after == current,
        o matches Observation::New(n) ==> (match extracted_path(current) {
            Some(p) => n.candidate.path@ == p,
            None => n.candidate.path@ == current,
        }) && n.candidate.file_type@ == detected_type(n.candidate.path@),
{
}

/// How a file found in the clipboard is recorded in the history.
#[derive(Debug)]
pub struct FileEntryPlan {
    /// "image", "document", "media" or "file".
    pub content_type: String,
    /// The text shown for it: a symbol for its kind, then its file name.
    pub display_text: String,
    /// Whether the compressed file data is stored with it.
    pub attach_data: bool,
}

/// The name shown for the file at `path`: its file name, or "Unknown file".
pub open spec fn shown_file_name(path: Seq<char>) -> Seq<char> {
    match file_name_of(path) {
        Some(n) => n,
        None => "Unknown file"@,
    }
}

/// The content type recorded for a kind of file.
pub open spec fn entry_content_type(t: FileTypeView) -> Seq<char> {
    match t {
        FileTypeView::Image(_) => "image"@,
        FileTypeView::Pdf | FileTypeView::Document(_) => "document"@,
        FileTypeView::Audio(_) | FileTypeView::Video(_) => "media"@,
        _ => "file"@,
    }
}

/// The symbol shown before the name of a kind of file.
pub open spec fn entry_symbol(t: FileTypeView) -> Seq<char> {
    match t {
        FileTypeView::Image(_) => "\u{1F5BC}\u{FE0F}  "@,
        FileTypeView::Pdf => "\u{1F4C4} "@,
        FileTypeView::Document(_) => "\u{1F4DD} "@,
        FileTypeView::Audio(_) => "\u{1F3B5} "@,
        FileTypeView::Video(_) => "\u{1F3AC} "@,
        _ => "\u{1F4C1} "@,
    }
}

/// Whether the compressed data of a kind of file is stored: for images and
/// for files of no recognised document or media kind.
pub open spec fn entry_attaches_data(t: FileTypeView) -> bool {
    match t {
        FileTypeView::Pdf | FileTypeView::Document(_) | FileTypeView::Audio(_)
        | FileTypeView::Video(_) => false,
        _ => true,
    }
}

/// Which files are stored with their compressed data: every one but PDFs,
/// documents, audio and video, so images, text files and files of no known
/// kind keep their data.
pub proof fn law_which_files_keep_data(t: FileTypeView)
    ensures
        !entry_attaches_data(t) <==> (t is Pdf || t is Document || t is Audio || t is Video),
        t is Unknown ==> entry_attaches_data(t),
        t is Image ==> entry_attaches_data(t),
        t is Text ==> entry_attaches_data(t),
{
}

/// The content type and symbol of each kind: images are "image" under 🖼️,
/// PDFs "document" under 📄, documents "document" under 📝, audio "media"
/// under 🎵, video "media" under 🎬, and text files and files of no known kind
/// "file" under 📁.
pub proof fn law_entry_kinds(t: FileTypeView)
    ensures
        t is Image ==> entry_content_type(t) == seq!['i', 'm', 'a', 'g', 'e']
            && entry_symbol(t) == seq!['\u{1F5BC}', '\u{FE0F}', ' ', ' '],
        t is Pdf ==> entry_content_type(t) == seq!['d', 'o', 'c', 'u', 'm', 'e', 'n', 't']
            && entry_symbol(t) == seq!['\u{1F4C4}', ' '],
        t is Document ==> entry_content_type(t) == seq!['d', 'o', 'c', 'u', 'm', 'e', 'n', 't']
            && entry_symbol(t) == seq!['\u{1F4DD}', ' '],
        t is Audio ==> entry_content_type(t) == seq!['m', 'e', 'd', 'i', 'a'] && entry_symbol(t)
            == seq!['\u{1F3B5}', ' '],
        t is Video ==> entry_content_type(t) == seq!['m', 'e', 'd', 'i', 'a'] && entry_symbol(t)
            == seq!['\u{1F3AC}', ' '],
        t is Text || t is Unknown ==> entry_content_type(t) == seq!['f', 'i', 'l', 'e']
            && entry_symbol(t) == seq!['\u{1F4C1}', ' '],
{
    reveal_strlit("image");
    reveal_strlit("document");
    reveal_strlit("media");
    reveal_strlit("file");
    reveal_strlit("\u{1F5BC}\u{FE0F}  ");
    reveal_strlit("\u{1F4C4} ");
    reveal_strlit("\u{1F4DD} ");
    reveal_strlit("\u{1F3B5} ");
    reveal_strlit("\u{1F3AC} ");
    reveal_strlit("\u{1F4C1} ");
}

/// A file is shown under the last component of its path, or as "Unknown
/// file" where the path has none.
pub proof fn law_shown_name(path: Seq<char>)
    ensures
        file_name_of(path) matches Some(n) ==> shown_file_name(path) == n,
        file_name_of(path) is None ==> shown_file_name(path) == seq![
            'U', 'n', 'k', 'n', 'o', 'w', 'n', ' ', 'f', 'i', 'l', 'e',
        ],
{
    reveal_strlit("Unknown file");
}

/// A file whose extension is of no known kind, such as "archive.zip", is
/// recorded as a "file" under 📁 and keeps its compressed data.
pub proof fn law_unknown_file_keeps_data(p: Seq<char>, e: Seq<char>)
    requires
        path_extension(p) == Some(e),
        all_ascii(e),
        ascii_lowercase(e) == seq!['z', 'i', 'p'],
    ensures
        entry_attaches_data(detected_type(p)),
        entry_content_type(detected_type(p)) == seq!['f', 'i', 'l', 'e'],
{
    law_detected_kinds(p, e);
    law_entry_kinds(detected_type(p));
}

/// The name shown for the file at `path`.
pub fn shown_name(path: &str) -> (r: String)
    ensures
        r@ == shown_file_name(path@),
{
    match file_name(path) {
        Some(n) => n,
        None => String::from_str("Unknown file"),
    }
}

/// How the file `info` is recorded: its content type, the text shown for
/// it, and whether its compressed data goes with it.
pub fn plan_file_entry(info: &FileInfo) -> (p: FileEntryPlan)
    ensures
        p.content_type@ == entry_content_type(info.file_type@),
        p.display_text@ == entry_symbol(info.file_type@) + shown_file_name(info.path@),
        p.attach_data == entry_attaches_data(info.file_type@),
{
    let name = shown_name(info.path.as_str());
    let (content_type, symbol, attach_data) = match &info.file_type {
        FileType::Image(_) => (String::from_str("image"), "\u{1F5BC}\u{FE0F}  ", true),
        FileType::Pdf => (String::from_str("document"), "\u{1F4C4} ", false),
        FileType::Document(_) => (String::from_str("document"), "\u{1F4DD} ", false),
        FileType::Audio(_) => (String::from_str("media"), "\u{1F3B5} ", false),
        FileType::Video(_) => (String::from_str("media"), "\u{1F3AC} ", false),
        _ => (String::from_str("file"), "\u{1F4C1} ", true),
    };
    let mut display_text = String::from_str(symbol);
    display_text.append(name.as_str());
    FileEntryPlan { content_type, display_text, attach_data }
}

} // verus!
