use transpose_bench::pattern::{alphabet_vec, generate_pattern, should_regenerate, PATTERN_PERIOD};

#[test]
fn alphabet_is_the_printable_cycle() {
    let a = alphabet_vec();
    assert_eq!(a.len(), PATTERN_PERIOD);
    let expected = b"abcdefghijklmnopqrstuvwxyzABCDEFGHIJKLMNOPQRSTUVWXYZ0123456789!@#$^&*()-+[]";
    assert_eq!(a.as_slice(), &expected[..]);
}

#[test]
fn pattern_prefix_is_the_alphabet() {
    let p = generate_pattern(10);
    assert_eq!(p.as_slice(), b"abcdefghij");
}

#[test]
fn pattern_wraps_after_one_period() {
    let p = generate_pattern(PATTERN_PERIOD + 3);
    assert_eq!(p[PATTERN_PERIOD - 1], b']');
    assert_eq!(p[PATTERN_PERIOD], b'a');
    assert_eq!(p[PATTERN_PERIOD + 1], b'b');
    assert_eq!(p[PATTERN_PERIOD + 2], b'c');
}

#[test]
fn pattern_has_exact_length() {
    assert_eq!(generate_pattern(0).len(), 0);
    assert_eq!(generate_pattern(1024).len(), 1024);
}

#[test]
fn pattern_is_deterministic() {
    // regenerating for the same size yields byte-identical content
    assert_eq!(generate_pattern(300), generate_pattern(300));
}

#[test]
fn regeneration_skipped_when_length_matches() {
    assert!(!should_regenerate(Some(1024), 1024));
}

#[test]
fn regeneration_needed_for_missing_or_wrong_length() {
    assert!(should_regenerate(None, 1024));
    assert!(should_regenerate(Some(0), 1024));
    assert!(should_regenerate(Some(1023), 1024));
    assert!(should_regenerate(Some(2048), 1024));
}
