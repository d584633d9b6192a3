use libcommons::ffi::{FfiStr, FfiString};

#[test]
fn new_is_empty() {
    let string = FfiString::new();
    assert!(string.is_empty());
    assert_eq!(string.len(), 0);
    assert_eq!(string.capacity(), 0);
}

#[test]
fn push_str_appends_in_order() {
    let mut string = FfiString::new();
    string.push_str("Hello, ");
    string.push_str("world!");
    assert_eq!(string.as_str(), "Hello, world!");
    assert_eq!(string.len(), 13);
}

#[test]
fn appends_concatenate() {
    let mut string = FfiString::new();
    string.push_str("ab");
    string.push_str("");
    string.push_str("cde");
    string.push_str("f");
    assert_eq!(string.as_bytes(), b"abcdef");
    assert_eq!(string.as_str(), "abcdef");
}

#[test]
fn round_trip_via_owned_buffer() {
    let original = "héllo\u{1F980}!";
    let view = FfiStr::from_str(original);
    let owned = view.to_ffi_string();
    let back = owned.as_ffi_str();
    assert_eq!(back.as_str(), original);
    assert_eq!(back.as_bytes(), original.as_bytes());
}

#[test]
fn with_capacity_reserves() {
    let string = FfiString::with_capacity(5);
    assert!(string.capacity() >= 5);
    assert!(string.is_empty());
    let zero = FfiString::with_capacity(0);
    assert_eq!(zero.capacity(), 0);
    assert!(zero.is_empty());
}

#[test]
fn empty_capacity_attaches_nothing() {
    // a buffer with no allocation has capacity 0, and by the buffer's
    // invariant no destructor is attached, so dropping it deallocates nothing
    let string = FfiString::with_capacity(0);
    assert_eq!(string.capacity(), 0);
    assert!(string.is_empty());
    drop(string);
    let empty = FfiString::new();
    assert_eq!(empty.capacity(), 0);
    drop(empty);
}

#[test]
fn growth_is_sublinear() {
    let mut string = FfiString::new();
    let mut reallocations = 0;
    let mut capacity = string.capacity();
    for _ in 0..1000 {
        string.push_str("x");
        if string.capacity() != capacity {
            reallocations += 1;
            capacity = string.capacity();
        }
    }
    assert_eq!(string.len(), 1000);
    // each reallocation at least doubles the capacity, so a thousand
    // single-byte appends see a logarithmic number of them
    assert!(reallocations <= 11, "{reallocations} reallocations");
}

#[test]
fn growth_rule_capacities() {
    let mut string = FfiString::new();
    string.push_str("a");
    // next power of two at or above 0 + 1, doubled
    assert_eq!(string.capacity(), 2);
    string.push_str("bc");
    // next power of two at or above 2 + 2, doubled
    assert_eq!(string.capacity(), 8);
    assert_eq!(string.as_str(), "abc");
}

#[test]
fn wide_pointer_of_empty_view() {
    let view = FfiStr::from_str("");
    let ptr = view.as_ptr();
    assert!(ptr.is_empty());
    assert_eq!(ptr.len(), 0);
    let owned = ptr.to_ffi_string();
    assert!(owned.is_empty());
    assert_eq!(owned.capacity(), 0);
}

#[test]
fn wide_pointer_round_trip() {
    let view = FfiStr::from_str("across the boundary");
    let ptr = view.as_ptr();
    assert_eq!(ptr.len(), 19);
    assert!(!ptr.is_empty());
    assert_eq!(ptr.as_str(), "across the boundary");
    let owned = ptr.to_ffi_string();
    assert_eq!(owned.as_str(), "across the boundary");
}

#[test]
fn append_in_place_with_exact_capacity() {
    let mut string = FfiString::with_capacity(2);
    assert_eq!(string.capacity(), 2);
    string.push_str("ab");
    // the bytes fit, so the append happened in place: same allocation
    assert_eq!(string.capacity(), 2);
    assert_eq!(string.len(), 2);
    assert_eq!(string.as_str(), "ab");
}

#[test]
fn push_single_characters() {
    let mut string = FfiString::new();
    string.push_str("Hello, ");
    string.push('C');
    assert_eq!(string.as_str(), "Hello, C");
    string.push('\u{1F980}');
    assert_eq!(string.as_str(), "Hello, C\u{1F980}");
    assert_eq!(string.len(), 12);
}

#[test]
fn view_and_bytes_accessors() {
    let view = FfiStr::from_str("Hi!");
    assert_eq!(view.as_str(), "Hi!");
    assert_eq!(view.as_bytes(), &[b'H', b'i', b'!']);
    let owned = view.to_ffi_string();
    assert_eq!(owned.as_bytes(), &[b'H', b'i', b'!']);
    assert_eq!(owned.capacity(), 3);
}

#[test]
fn default_is_new() {
    let string = FfiString::default();
    assert!(string.is_empty());
    assert_eq!(string.capacity(), 0);
}
