use grabbit::text::{chars_of, contains, lines_of, push_decimal, starts_with, trim_by, TrimSet};

#[test]
fn lines_match_std_lines() {
    for s in ["", "a", "a\n", "a\nb", "a\r\nb\r\n", "\n\n", "x\r", "a\rb\n", "\r\n", "é\nü"] {
        let ours = lines_of(s);
        let theirs: Vec<String> = s.lines().map(|l| l.to_string()).collect();
        assert_eq!(ours, theirs, "text {:?}", s);
    }
}

#[test]
fn trim_matches_std_trim() {
    for s in ["", "  a b  ", "\t\u{3000}x\u{85}", "\u{200b}x", "   "] {
        assert_eq!(trim_by(s, TrimSet::WhiteSpace), s.trim(), "text {:?}", s);
    }
    assert_eq!(trim_by("\"\"a\"b\"", TrimSet::Quote), "a\"b");
}

#[test]
fn starts_with_and_contains() {
    let s = chars_of("copy\nfile");
    assert!(starts_with(&s, &['c', 'o', 'p', 'y', '\n']));
    assert!(!starts_with(&s, &['c', 'u', 't']));
    assert!(contains(&s, &['\n', 'f']));
    assert!(contains(&s, &[]));
    assert!(!contains(&s, &['x']));
}

#[test]
fn decimal_numerals() {
    for n in [0usize, 7, 10, 99, 1234567] {
        let mut s = String::from(">");
        push_decimal(&mut s, n);
        assert_eq!(s, format!(">{}", n));
    }
}
