use im_switch::text::{join_strings, split_whitespace, trim_str};
use im_switch::windows::layout_name;

#[test]
fn trim_and_split_follow_unicode_whitespace() {
    assert_eq!(trim_str(" \t a b \n"), "a b");
    assert_eq!(trim_str("   "), "");
    assert_eq!(split_whitespace("  a\u{2003}b\tc  "), vec!["a", "b", "c"]);
    assert!(split_whitespace(" \u{85} ").is_empty());
}

#[test]
fn join_puts_separator_between() {
    let v = vec!["a".to_string(), "b".to_string(), "c".to_string()];
    assert_eq!(join_strings(&v, ", "), "a, b, c");
    assert_eq!(join_strings(&[], ", "), "");
}

#[test]
fn lossy_decoding_keeps_valid_text() {
    assert_eq!(layout_name("mozc-日本".as_bytes()), "mozc-日本");
    assert_eq!(layout_name(&[b'a', 0xc3]), "a\u{fffd}");
}
