use runix::text::{
    find_char, has_prefix, has_suffix, is_text, push_decimal, same_chars, skip_chars, split_chars,
    strip_prefix, take_chars, to_chars, to_string,
};

fn decimal(n: i64) -> String {
    let mut out = String::from(">");
    push_decimal(&mut out, n);
    out
}

#[test]
fn strings_and_characters_convert_both_ways() {
    for text in ["", "a", "file+file:///x", "é/ü?ß", "a\u{1F600}b"] {
        let chars = to_chars(text);
        assert_eq!(chars, text.chars().collect::<Vec<char>>());
        assert_eq!(to_string(&chars), text);
    }
}

#[test]
fn find_gives_the_first_position_or_the_length() {
    assert_eq!(find_char(&to_chars("a?b?c"), '?'), 1);
    assert_eq!(find_char(&to_chars("?"), '?'), 0);
    assert_eq!(find_char(&to_chars("abc"), '?'), 3);
    assert_eq!(find_char(&to_chars(""), '?'), 0);
}

#[test]
fn split_keeps_empty_pieces() {
    let pieces = |text: &str| -> Vec<String> {
        let chars = to_chars(text);
        split_chars(&chars, '/').into_iter().map(to_string).collect()
    };
    assert_eq!(pieces("a/b/c"), ["a", "b", "c"]);
    assert_eq!(pieces("abc"), ["abc"]);
    assert_eq!(pieces(""), [""]);
    assert_eq!(pieces("/"), ["", ""]);
    assert_eq!(pieces("a//b/"), ["a", "", "b", ""]);
    for text in ["a/b/c", "abc", "", "/", "a//b/", "//"] {
        assert_eq!(pieces(text), text.split('/').collect::<Vec<&str>>());
        assert_eq!(pieces(text).join("/"), text);
    }
}

#[test]
fn prefixes_and_suffixes() {
    let chars = to_chars("file+https://x.tar.gz");
    assert!(has_prefix(&chars, "file+https:"));
    assert!(has_prefix(&chars, ""));
    assert!(!has_prefix(&chars, "file+http:"));
    assert!(!has_prefix(&to_chars("fi"), "file"));
    assert!(has_suffix(&chars, ".tar.gz"));
    assert!(!has_suffix(&chars, ".tar"));
    assert!(!has_suffix(&to_chars("gz"), ".tar.gz"));
    assert!(is_text(&chars, "file+https://x.tar.gz"));
    assert!(!is_text(&chars, "file+https://x.tar.g"));
    assert!(same_chars(&chars, &to_chars("file+https://x.tar.gz")));
    assert!(!same_chars(&chars, &to_chars("file+https://x.tar.gZ")));
    assert_eq!(
        strip_prefix(&chars, "file+").map(to_string),
        Some("https://x.tar.gz".to_string())
    );
    assert_eq!(strip_prefix(&chars, "tarball+"), None);
    assert_eq!(to_string(skip_chars(&chars, 5)), "https://x.tar.gz");
    assert_eq!(to_string(take_chars(&chars, 4)), "file");
}

#[test]
fn decimal_spelling() {
    assert_eq!(decimal(0), ">0");
    assert_eq!(decimal(7), ">7");
    assert_eq!(decimal(10), ">10");
    assert_eq!(decimal(1_700_000_000), ">1700000000");
    assert_eq!(decimal(-1), ">-1");
    assert_eq!(decimal(-120), ">-120");
    assert_eq!(decimal(i64::MAX), ">9223372036854775807");
    assert_eq!(decimal(i64::MIN), ">-9223372036854775808");
    for n in [0i64, 9, 10, 99, 100, 12345, -12345, i64::MAX, i64::MIN] {
        assert_eq!(decimal(n), format!(">{n}"));
    }
}
