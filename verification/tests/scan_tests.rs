use gramslator::rendering::geometry::Rgb666;
use gramslator::rendering::layout::{separator_color, transcript_color, translation_color};
use gramslator::scan::{
    all_hex_digits_exec, bytes_eq, bytes_match_at, find_bytes, str_eq, trim_end_index,
    trim_start_index,
};

#[test]
fn byte_search() {
    assert_eq!(find_bytes(b"abcabc", b"bc"), Some(1));
    assert_eq!(find_bytes(b"abc", b"x"), None);
    assert_eq!(find_bytes(b"abc", b""), Some(0));
    assert!(bytes_match_at(b"hello", b"ll", 2));
    assert!(!bytes_match_at(b"hello", b"ll", 1));
}

#[test]
fn equality() {
    assert!(bytes_eq(b"abc", b"abc"));
    assert!(!bytes_eq(b"abc", b"abd"));
    assert!(!bytes_eq(b"abc", b"ab"));
    assert!(str_eq("día", "día"));
    assert!(!str_eq("dia", "día"));
}

#[test]
fn trimming_follows_unicode_whitespace() {
    let s = " \t\u{a0}x y\u{3000}\r\n".as_bytes();
    let start = trim_start_index(s, 0, s.len());
    let end = trim_end_index(s, start, s.len());
    assert_eq!(&s[start..end], b"x y");
    let t = b"   ";
    assert_eq!(trim_start_index(t, 0, 3), 3);
    assert_eq!(trim_end_index(t, 0, 3), 0);
}

#[test]
fn hex_digits() {
    assert!(all_hex_digits_exec(b"1a2F", 0, 4));
    assert!(!all_hex_digits_exec(b"1g", 0, 2));
    assert!(all_hex_digits_exec(b"zz", 1, 1));
}

#[test]
fn text_colours() {
    assert_eq!(translation_color(), Rgb666::new(32, 58, 63));
    assert_eq!(transcript_color(), Rgb666::new(48, 48, 48));
    assert_eq!(separator_color(), Rgb666::new(20, 20, 20));
}
