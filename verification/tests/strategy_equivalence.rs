use transpose_bench::dims::{plan_dimensions, Dimensions};
use transpose_bench::pattern::generate_pattern;
use transpose_bench::strategies::{
    buffered_positional_io_transpose, mapped_transpose, positional_io_transpose,
    row_fan_out_transpose, run_strategy, whole_buffer_transpose, StrategyKind,
};

/// The expected transposed layout, computed directly by index formula.
fn expected_transpose(input: &[u8], d: &Dimensions) -> Vec<u8> {
    let mut out = vec![0u8; input.len()];
    for i in 0..d.rows {
        for j in 0..d.cols {
            out[j * d.rows + i] = input[i * d.cols + j];
        }
    }
    out
}

fn run_all_strategies(input: &Vec<u8>, d: &Dimensions, capacity: usize) -> [Vec<u8>; 5] {
    let whole = whole_buffer_transpose(input, d);
    let mut mapped = vec![0u8; input.len()];
    mapped_transpose(input, d, &mut mapped);
    let positional = positional_io_transpose(input, d);
    let buffered = buffered_positional_io_transpose(input, d, capacity);
    let fanned = row_fan_out_transpose(input, d);
    [whole, mapped, positional, buffered, fanned]
}

#[test]
fn all_strategies_agree_on_1024_bytes() {
    let d = plan_dimensions(10);
    assert_eq!((d.rows, d.cols), (32, 32));
    let input = generate_pattern(d.size as usize);
    let expected = expected_transpose(&input, &d);
    let [whole, mapped, positional, buffered, fanned] = run_all_strategies(&input, &d, 1024);
    assert_eq!(whole, expected);
    assert_eq!(mapped, expected);
    assert_eq!(positional, expected);
    assert_eq!(buffered, expected);
    assert_eq!(fanned, expected);
}

#[test]
fn all_strategies_agree_on_tall_matrix() {
    let d = plan_dimensions(5);
    assert_eq!((d.rows, d.cols), (8, 4));
    let input = generate_pattern(d.size as usize);
    let expected = expected_transpose(&input, &d);
    let [whole, mapped, positional, buffered, fanned] = run_all_strategies(&input, &d, 3);
    assert_eq!(whole, expected);
    assert_eq!(mapped, expected);
    assert_eq!(positional, expected);
    assert_eq!(buffered, expected);
    assert_eq!(fanned, expected);
}

#[test]
fn buffered_matches_reference_with_small_capacity() {
    // capacity below `rows` forces several flush cycles
    let d = plan_dimensions(12);
    assert_eq!((d.rows, d.cols), (64, 64));
    let input = generate_pattern(d.size as usize);
    let whole = whole_buffer_transpose(&input, &d);
    let buffered = buffered_positional_io_transpose(&input, &d, 16);
    assert_eq!(buffered, whole);
}

#[test]
fn buffered_matches_reference_with_capacity_one() {
    let d = plan_dimensions(6);
    let input = generate_pattern(d.size as usize);
    let whole = whole_buffer_transpose(&input, &d);
    let buffered = buffered_positional_io_transpose(&input, &d, 1);
    assert_eq!(buffered, whole);
}

#[test]
fn buffered_matches_reference_with_oversized_capacity() {
    // a capacity larger than `rows` means a single final flush
    let d = plan_dimensions(8);
    let input = generate_pattern(d.size as usize);
    let whole = whole_buffer_transpose(&input, &d);
    let buffered = buffered_positional_io_transpose(&input, &d, 1 << 20);
    assert_eq!(buffered, whole);
}

#[test]
fn dispatch_agrees_for_every_variant() {
    let d = plan_dimensions(7);
    let input = generate_pattern(d.size as usize);
    let expected = expected_transpose(&input, &d);
    for kind in [
        StrategyKind::WholeBuffer,
        StrategyKind::Mapped,
        StrategyKind::PositionalIo,
        StrategyKind::BufferedPositionalIo,
        StrategyKind::RowFanOut,
    ] {
        assert_eq!(run_strategy(kind, &input, &d, 4), expected, "{:?}", kind);
    }
}

#[test]
fn square_double_transpose_restores_input() {
    let d = plan_dimensions(10);
    assert_eq!(d.rows, d.cols);
    let input = generate_pattern(d.size as usize);
    let once = whole_buffer_transpose(&input, &d);
    let twice = whole_buffer_transpose(&once, &d);
    assert_eq!(twice, input);
}

#[test]
fn non_square_double_transpose_reshapes() {
    // with the same tall dimensions both times, a non-square double
    // transpose is a reshape, not the identity
    let d = plan_dimensions(5);
    assert_ne!(d.rows, d.cols);
    let input = generate_pattern(d.size as usize);
    let once = whole_buffer_transpose(&input, &d);
    let twice = whole_buffer_transpose(&once, &d);
    assert_ne!(twice, input);
    // the expected layout comes from the index formula applied twice
    let expected = expected_transpose(&expected_transpose(&input, &d), &d);
    assert_eq!(twice, expected);
}

#[test]
fn single_byte_matrix_is_fixed_by_every_strategy() {
    let d = plan_dimensions(0);
    assert_eq!((d.rows, d.cols), (1, 1));
    let input = generate_pattern(1);
    let [whole, mapped, positional, buffered, fanned] = run_all_strategies(&input, &d, 1);
    assert_eq!(whole, input);
    assert_eq!(mapped, input);
    assert_eq!(positional, input);
    assert_eq!(buffered, input);
    assert_eq!(fanned, input);
}
