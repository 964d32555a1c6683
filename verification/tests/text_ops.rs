use mugen::text::{
    chars_of, contains_chars, is_whitespace, last_word_of, same_text, split_text, str_contains,
    str_starts_with, trim_text,
};

#[test]
fn contains_finds_inner_occurrence() {
    assert!(str_contains("ro.build.tags=release-keys,test-keys", "test-keys"));
    assert!(!str_contains("release-keys", "test-keys"));
}

#[test]
fn contains_empty_needle_and_short_haystack() {
    assert!(str_contains("", ""));
    assert!(str_contains("abc", ""));
    assert!(!str_contains("ab", "abc"));
    assert!(str_contains("abc", "abc"));
}

#[test]
fn contains_chars_over_unicode() {
    let hay = chars_of("çà qemu ü");
    let needle = chars_of("qemu");
    assert!(contains_chars(&hay, &needle));
    assert_eq!(hay.len(), 9);
}

#[test]
fn starts_with_prefix() {
    assert!(str_starts_with("TracerPid:\t0", "TracerPid:"));
    assert!(!str_starts_with("Tracer", "TracerPid:"));
    assert!(!str_starts_with(" TracerPid:", "TracerPid:"));
}

#[test]
fn whitespace_follows_unicode() {
    assert!(is_whitespace(' '));
    assert!(is_whitespace('\t'));
    assert!(is_whitespace('\n'));
    assert!(is_whitespace('\u{a0}'));
    assert!(is_whitespace('\u{3000}'));
    assert!(!is_whitespace('a'));
    assert!(!is_whitespace('\u{200b}'));
    for c in ['\u{0}', ' ', '\u{85}', '\u{2009}', 'x', '\u{1680}', '\u{feff}', '\u{2028}'] {
        assert_eq!(is_whitespace(c), c.is_whitespace());
    }
}

#[test]
fn trim_removes_both_ends() {
    assert_eq!(trim_text("  generic_x86 \n"), "generic_x86");
    assert_eq!(trim_text("\t\n "), "");
    assert_eq!(trim_text(""), "");
    assert_eq!(trim_text("a b"), "a b");
    assert_eq!(trim_text("\u{3000}x\u{a0}"), "x");
}

#[test]
fn trim_matches_std_and_is_idempotent() {
    for s in ["  a  ", "x", " ", "\r\nvalue\r\n", "\u{2000}v a\u{2001}"] {
        let t = trim_text(s);
        assert_eq!(t, s.trim());
        assert_eq!(trim_text(&t), t);
    }
}

#[test]
fn last_word_of_lines() {
    assert_eq!(last_word_of("TracerPid:\t1234"), Some("1234".to_string()));
    assert_eq!(last_word_of("TracerPid:\t0  \n"), Some("0".to_string()));
    assert_eq!(last_word_of("   "), None);
    assert_eq!(last_word_of(""), None);
    assert_eq!(last_word_of("single"), Some("single".to_string()));
}

#[test]
fn split_matches_std() {
    for s in ["/bin:/sbin", "", ":", "/a::/b:", "single"] {
        let expected: Vec<String> = s.split(':').map(|p| p.to_string()).collect();
        assert_eq!(split_text(s, ':'), expected);
    }
}

#[test]
fn same_text_compares_exactly() {
    assert!(same_text("userdebug", "userdebug"));
    assert!(!same_text("userdebug", "user"));
    assert!(!same_text("0", "0 "));
    assert!(same_text("", ""));
}
