use libcommons::utf8::{AsUtf8, Utf8};

#[test]
fn chars_u8() {
    let chars = "Hello🐱!".as_bytes();
    let mut iter = chars.as_utf8();

    assert!(matches!(iter.next(), Some('H')));
    assert!(matches!(iter.next(), Some('e')));
    assert!(matches!(iter.next(), Some('l')));
    assert!(matches!(iter.next(), Some('l')));
    assert!(matches!(iter.next(), Some('o')));
    assert!(matches!(iter.next(), Some('🐱')));
    assert!(matches!(iter.next(), Some('!')));

    let mut iter = Utf8::new(chars.to_vec());

    assert!(matches!(iter.next(), Some('H')));
    assert!(matches!(iter.next(), Some('e')));
    assert!(matches!(iter.next(), Some('l')));
    assert!(matches!(iter.next(), Some('l')));
    assert!(matches!(iter.next(), Some('o')));
    assert!(matches!(iter.next(), Some('🐱')));
    assert!(matches!(iter.next(), Some('!')));
}

#[test]
fn end_of_stream() {
    let mut iter = Utf8::new(Vec::new());
    assert!(iter.next().is_none());
    assert!(iter.next().is_none());
}

#[test]
fn stray_continuation_byte_is_replaced() {
    let mut iter = Utf8::new(vec![b'a', 0x80, b'b']);
    assert_eq!(iter.next(), Some('a'));
    assert_eq!(iter.next(), Some('\u{FFFD}'));
    assert_eq!(iter.next(), Some('b'));
    assert_eq!(iter.next(), None);
}

#[test]
fn impossible_leading_byte_is_replaced() {
    let mut iter = Utf8::new(vec![0xFF, b'x']);
    assert_eq!(iter.next(), Some('\u{FFFD}'));
    assert_eq!(iter.next(), Some('x'));
}

#[test]
fn truncated_character_ends_stream() {
    // a two-byte leading byte right at the end of the stream
    let mut iter = Utf8::new(vec![b'a', 0xC3]);
    assert_eq!(iter.next(), Some('a'));
    assert_eq!(iter.next(), None);
}

#[test]
fn truncated_character_mid_stream_is_replaced() {
    // a three-byte leading byte with only one byte after it
    let mut iter = Utf8::new(vec![0xE2, 0x82]);
    assert_eq!(iter.next(), Some('\u{FFFD}'));
    assert_eq!(iter.next(), None);
}

#[test]
fn bad_continuation_is_replaced() {
    let mut iter = Utf8::new(vec![0xC3, b'x']);
    assert_eq!(iter.next(), Some('\u{FFFD}'));
    assert_eq!(iter.next(), None);
}

#[test]
fn surrogate_codepoint_is_replaced() {
    // 0xED 0xA0 0x80 combines to 0xD800, which is no Unicode scalar
    let mut iter = Utf8::new(vec![0xED, 0xA0, 0x80, b'z']);
    assert_eq!(iter.next(), Some('\u{FFFD}'));
    assert_eq!(iter.next(), Some('z'));
}

#[test]
fn multi_byte_characters_decode() {
    let mut iter = Utf8::new("é\u{20AC}\u{1F980}".as_bytes().to_vec());
    assert_eq!(iter.next(), Some('é'));
    assert_eq!(iter.next(), Some('\u{20AC}'));
    assert_eq!(iter.next(), Some('\u{1F980}'));
    assert_eq!(iter.next(), None);
}

#[test]
fn inner_gives_the_stream_back() {
    let bytes = vec![b'o', b'k'];
    let mut iter = Utf8::new(bytes.clone());
    assert_eq!(iter.inner(), &bytes);
    assert_eq!(iter.next(), Some('o'));
    assert_eq!(iter.into_inner(), bytes);
}

#[test]
fn inner_mut_extends_the_stream() {
    let mut iter = Utf8::new(vec![b'a']);
    assert_eq!(iter.next(), Some('a'));
    assert_eq!(iter.next(), None);
    iter.inner_mut().push(b'b');
    assert_eq!(iter.next(), Some('b'));
    assert_eq!(iter.next(), None);
}
