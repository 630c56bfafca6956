use transpose_bench::checker::files_equal;
use transpose_bench::pattern::generate_pattern;

#[test]
fn equal_contents_compare_equal() {
    let a = generate_pattern(4096);
    let b = generate_pattern(4096);
    assert!(files_equal(&a, &b));
}

#[test]
fn empty_contents_compare_equal() {
    let a: Vec<u8> = Vec::new();
    let b: Vec<u8> = Vec::new();
    assert!(files_equal(&a, &b));
}

#[test]
fn single_flipped_byte_is_detected_anywhere() {
    let a = generate_pattern(4096);
    // first byte, last byte, a chunk boundary, and mid-chunk positions
    for &pos in &[0usize, 1, 1023, 1024, 1025, 2048, 4094, 4095] {
        let mut b = a.clone();
        b[pos] ^= 1;
        assert!(!files_equal(&a, &b), "flip at {} missed", pos);
        assert!(!files_equal(&b, &a), "flip at {} missed (swapped)", pos);
    }
}

#[test]
fn differing_lengths_compare_unequal() {
    let a = generate_pattern(1024);
    let b = generate_pattern(1023);
    assert!(!files_equal(&a, &b));
    assert!(!files_equal(&b, &a));
    let empty: Vec<u8> = Vec::new();
    assert!(!files_equal(&a, &empty));
}
