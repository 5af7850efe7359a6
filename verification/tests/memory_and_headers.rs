use apoxy_js::headers::Headers;
use apoxy_js::memory::{Handle, MemoryHandle};

#[test]
fn zero_is_no_handle() {
    assert!(Handle::new(0).is_none());
}

#[test]
fn positive_offsets_are_handles() {
    let handle = Handle::new(1).unwrap();
    assert_eq!(handle.offset(), 1);
    let handle = Handle::new(u64::MAX).unwrap();
    assert_eq!(handle.offset(), u64::MAX);
    assert_eq!(handle.with_length(12), MemoryHandle { offset: u64::MAX, length: 12 });
}

#[test]
fn headers_last_write_wins() {
    let mut headers = Headers::new();
    assert_eq!(headers.len(), 0);
    headers.insert("a".to_string(), "1".to_string());
    headers.insert("b".to_string(), "2".to_string());
    headers.insert("a".to_string(), "3".to_string());
    assert_eq!(headers.len(), 2);
    assert_eq!(headers.get("a"), Some(&"3".to_string()));
    assert_eq!(headers.get("b"), Some(&"2".to_string()));
    assert_eq!(headers.get("c"), None);
    assert!(headers.contains("a"));
    assert!(!headers.contains("A"));
    assert_eq!(headers.name_at(0), "a");
    assert_eq!(headers.value_at(0), "3");
    assert_eq!(headers.name_at(1), "b");
}
