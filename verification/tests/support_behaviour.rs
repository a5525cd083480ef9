use seddish::compiled_regex::CompiledRegex;
use seddish::commands::substitute::char_index_at_byte;
use seddish::text::{chars_of, string_from, trim_chars, usize_to_decimal};

#[test]
fn regex_wrappers() {
    assert!(CompiledRegex::new("(", false).is_err());
    let re = CompiledRegex::new("a+", false).unwrap();
    assert!(re.is_match("baaa"));
    assert!(!re.is_match("bbb"));
    assert_eq!(re.capture_spans("xaayaz"), vec![vec![Some((1, 3))], vec![Some((4, 5))]]);
    let ci = CompiledRegex::new("A(b)?", true).unwrap();
    assert_eq!(ci.capture_spans("a"), vec![vec![Some((0, 1)), None]]);
    assert!(!CompiledRegex::new("A", false).unwrap().is_match("a"));
}

#[test]
fn byte_offsets_to_characters() {
    let t = chars_of("aéb");
    assert_eq!(char_index_at_byte(&t, 0), Some(0));
    assert_eq!(char_index_at_byte(&t, 1), Some(1));
    assert_eq!(char_index_at_byte(&t, 2), None);
    assert_eq!(char_index_at_byte(&t, 3), Some(2));
    assert_eq!(char_index_at_byte(&t, 4), Some(3));
    assert_eq!(char_index_at_byte(&t, 5), None);
}

#[test]
fn text_helpers() {
    assert_eq!(trim_chars("  a b \t\n"), "a b");
    assert_eq!(trim_chars("\u{3000}x\u{A0}"), "x");
    assert_eq!(trim_chars("   "), "");
    assert_eq!(usize_to_decimal(0), "0");
    assert_eq!(usize_to_decimal(1905), "1905");
    assert_eq!(usize_to_decimal(usize::MAX), usize::MAX.to_string());
    assert_eq!(string_from(&chars_of("héllo")), "héllo");
}
