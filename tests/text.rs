use rb::text::{bytes_equal, str_equal};

#[test]
fn byte_and_text_comparison() {
    assert!(bytes_equal(&[1, 2, 3], &[1, 2, 3]));
    assert!(!bytes_equal(&[1, 2, 3], &[1, 2, 4]));
    assert!(!bytes_equal(&[1, 2], &[1, 2, 3]));
    assert!(bytes_equal(&[], &[]));
    assert!(str_equal("zoë", "zoë"));
    assert!(!str_equal("zoë", "zoe"));
}
