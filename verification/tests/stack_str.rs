use libcommons::stack::StackString;

#[test]
fn new_stack_string_is_empty() {
    let s = StackString::<8>::new();
    assert!(s.is_empty());
    assert_eq!(s.len(), 0);
    assert_eq!(s.capacity(), 8);
    assert_eq!(s.as_bytes(), b"");
}

#[test]
fn stack_push_str_and_read_back() {
    let mut s = StackString::<8>::new();
    assert!(s.push_str("hi").is_ok());
    assert!(s.push_str(" there").is_ok());
    assert_eq!(s.len(), 8);
    assert_eq!(s.as_str(), "hi there");
    assert_eq!(s.as_bytes(), b"hi there");
}

#[test]
fn stack_push_str_overflow_leaves_unchanged() {
    let mut s = StackString::<4>::new();
    assert!(s.push_str("abc").is_ok());
    assert!(s.push_str("de").is_err());
    assert_eq!(s.as_str(), "abc");
    assert_eq!(s.len(), 3);
}

#[test]
fn stack_push_char_encodes_utf8() {
    let mut s = StackString::<16>::new();
    assert!(s.push('A').is_ok());
    assert!(s.push('é').is_ok());
    assert!(s.push('\u{20AC}').is_ok());
    assert!(s.push('\u{1F980}').is_ok());
    assert_eq!(s.as_str(), "Aé\u{20AC}\u{1F980}");
    assert_eq!(s.len(), 1 + 2 + 3 + 4);
}

#[test]
fn stack_push_char_overflow_leaves_unchanged() {
    let mut s = StackString::<4>::new();
    assert!(s.push_str("abc").is_ok());
    // a two-byte character does not fit into the one spare byte
    assert!(s.push('é').is_err());
    assert_eq!(s.as_str(), "abc");
    assert!(s.push('d').is_ok());
    assert_eq!(s.as_str(), "abcd");
}

#[test]
fn stack_default_is_empty() {
    let s = StackString::<4>::default();
    assert!(s.is_empty());
    assert_eq!(s.capacity(), 4);
}
