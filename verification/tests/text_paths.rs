use wallerd::paths::{extension_of, file_name_of, join, stem_of};
use wallerd::text::{
    is_whitespace, parse_u64_str, split_once_str, split_space_str, str_lt, trim_str, u64_to_decimal,
};

#[test]
fn trims_unicode_whitespace() {
    assert_eq!(trim_str("  a b \n"), "a b");
    assert_eq!(trim_str("\u{3000}x\u{2009}"), "x");
    assert_eq!(trim_str(" \t "), "");
    assert!(is_whitespace('\u{85}'));
    assert!(!is_whitespace('\u{200b}'));
}

#[test]
fn splits_at_first_space() {
    assert_eq!(split_once_str("a b c", ' '), Some(("a", "b c")));
    assert_eq!(split_once_str("abc", ' '), None);
    assert_eq!(split_space_str("abc"), ("abc", ""));
    assert_eq!(split_space_str(" x"), ("", "x"));
}

#[test]
fn orders_strings_like_string() {
    assert!(str_lt("a", "b"));
    assert!(str_lt("ab", "abc"));
    assert!(!str_lt("b", "ab"));
    assert!(str_lt("Z", "a"));
    assert!(!str_lt("x", "x"));
}

#[test]
fn parses_u64_like_std() {
    assert_eq!(parse_u64_str("42"), Some(42));
    assert_eq!(parse_u64_str("+7"), Some(7));
    assert_eq!(parse_u64_str("007"), Some(7));
    assert_eq!(parse_u64_str("18446744073709551615"), Some(u64::MAX));
    assert_eq!(parse_u64_str("18446744073709551616"), None);
    assert_eq!(parse_u64_str("-1"), None);
    assert_eq!(parse_u64_str("+"), None);
    assert_eq!(parse_u64_str(""), None);
    assert_eq!(parse_u64_str("1a"), None);
    for s in ["0", "12", "+3", "x", "99999999999999999999"] {
        assert_eq!(parse_u64_str(s), s.parse::<u64>().ok());
    }
}

#[test]
fn writes_decimal() {
    assert_eq!(u64_to_decimal(0), "0");
    assert_eq!(u64_to_decimal(1000), "1000");
    assert_eq!(u64_to_decimal(u64::MAX), u64::MAX.to_string());
}

#[test]
fn joins_like_pathbuf() {
    assert_eq!(join("a", "b"), "a/b");
    assert_eq!(join("a/", "b"), "a/b");
    assert_eq!(join("", "b"), "b");
    assert_eq!(join("a", "/abs"), "/abs");
    assert_eq!(join("a", ""), "a/");
    for (base, part) in [("x", "y"), ("x/", "y"), ("", "y"), ("x", "/y"), ("x", "")] {
        let expected = std::path::Path::new(base).join(part);
        assert_eq!(join(base, part), expected.to_string_lossy());
    }
}

#[test]
fn file_names_like_path() {
    for p in ["a/b.png", "a/b/", "a/.", "/", ".", "..", "a/..", "x", "/x/y//", "./", "a/./b", ""] {
        let expected = std::path::Path::new(p).file_name().map(|n| n.to_string_lossy().into_owned());
        assert_eq!(file_name_of(p).map(|s| s.to_string()), expected, "path {p:?}");
    }
}

#[test]
fn extensions_and_stems_like_path() {
    for n in ["a.png", "a.tar.gz", ".bashrc", "noext", "a.", ".a.b", "a..b"] {
        let p = std::path::Path::new(n);
        let ext = p.extension().map(|e| e.to_string_lossy().into_owned());
        let stem = p.file_stem().map(|e| e.to_string_lossy().into_owned()).unwrap();
        assert_eq!(extension_of(n).map(|s| s.to_string()), ext, "name {n:?}");
        assert_eq!(stem_of(n), stem, "name {n:?}");
    }
}
