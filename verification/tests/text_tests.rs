use songhunter::text::{
    contains, decimal_string, ends_with, extension, join_path, replace_all, split_first_of,
    starts_with, trim,
};

#[test]
fn contains_finds_substrings() {
    assert!(contains("https://vm.tiktok.com/x", "tiktok.com"));
    assert!(!contains("https://youtube.com", "tiktok.com"));
    assert!(contains("abc", ""));
    assert!(contains("abc", "abc"));
    assert!(!contains("ab", "abc"));
}

#[test]
fn prefixes_and_suffixes() {
    assert!(starts_with("https://a", "https://"));
    assert!(!starts_with("http://a", "https://"));
    assert!(ends_with("song.wav", ".wav"));
    assert!(!ends_with("wav", "song.wav"));
}

#[test]
fn replace_is_left_to_right_and_non_overlapping() {
    assert_eq!(replace_all("aaa", "aa", "b"), "ba");
    assert_eq!(replace_all("/photo/1/photo/", "/photo/", "/video/"), "/video/1/video/");
    assert_eq!(replace_all("say \"hi\"", "\"", "&quot;"), "say &quot;hi&quot;");
    assert_eq!(replace_all("none", "x", "y"), "none");
}

#[test]
fn trim_uses_unicode_white_space() {
    assert_eq!(trim("  a b \t\n"), "a b");
    assert_eq!(trim("\u{3000}x\u{a0}"), "x");
    assert_eq!(trim("   "), "");
    assert_eq!(trim(""), "");
}

#[test]
fn split_at_first_of_two() {
    assert_eq!(split_first_of("https://i.com/p/1?utm=2#top", '?', '#'), "https://i.com/p/1");
    assert_eq!(split_first_of("a#b?c", '?', '#'), "a");
    assert_eq!(split_first_of("plain", '?', '#'), "plain");
}

#[test]
fn extension_follows_path_rules() {
    assert_eq!(extension("abc.wav").as_deref(), Some("wav"));
    assert_eq!(extension("a.b.WAV").as_deref(), Some("WAV"));
    assert_eq!(extension(".wav"), None);
    assert_eq!(extension("..").as_deref(), None);
    assert_eq!(extension("noext"), None);
    assert_eq!(extension("a.").as_deref(), Some(""));
    for name in ["abc.wav", ".wav", "..", "x.tar.gz", "a.", "...", "plain"] {
        let expected = std::path::Path::new(name).extension().and_then(|e| e.to_str());
        assert_eq!(extension(name).as_deref(), expected, "{name}");
    }
}

#[test]
fn join_follows_pathbuf_push() {
    assert_eq!(join_path("./tmp", "task"), "./tmp/task");
    assert_eq!(join_path("./tmp/", "task"), "./tmp/task");
    assert_eq!(join_path("./tmp", "/abs"), "/abs");
    assert_eq!(join_path("", "x"), "x");
    for (a, b) in [("./tmp", "t"), ("/", "x"), ("a/b/", "c.wav"), ("a", "/b")] {
        let expected = std::path::Path::new(a).join(b);
        assert_eq!(join_path(a, b), expected.to_str().unwrap());
    }
}

#[test]
fn decimal_digits() {
    assert_eq!(decimal_string(0), "0");
    assert_eq!(decimal_string(7), "7");
    assert_eq!(decimal_string(1234567890), "1234567890");
    assert_eq!(decimal_string(u64::MAX), u64::MAX.to_string());
}
