use vstd::prelude::*;
use vstd::arithmetic::div_mod::{lemma_fundamental_div_mod, lemma_fundamental_div_mod_converse};

verus! {

/// The canonical rectangular out-of-place transpose.
///
/// `s` is read as a `rows x cols` row-major matrix; the result is the
/// `cols x rows` row-major transpose, so entry `(j, i)` of the result —
/// flat index `j * rows + i` — is entry `(i, j)` of the source, flat
/// index `i * cols + j`. For an output index `k`, the source row is
/// `k % rows` and the source column is `k / rows`.
pub open spec fn transpose_spec(s: Seq<u8>, rows: int, cols: int) -> Seq<u8> {
    Seq::new((rows * cols) as nat, |k: int| s[(k % rows) * cols + k / rows])
}

/// Index bookkeeping for one matrix entry `(i, j)`: both flat indices
/// are in range, and the target index decomposes back into `(i, j)`.
pub proof fn lemma_entry_indices(rows: int, cols: int, i: int, j: int)
    requires
        rows >= 1,
        cols >= 1,
        0 <= i < rows,
        0 <= j < cols,
    ensures
        0 <= j * rows + i < rows * cols,
        0 <= i * cols + j < rows * cols,
        (j * rows + i) % rows == i,
        (j * rows + i) / rows == j,
{
    assert(j * rows + i < rows * cols && i * cols + j < rows * cols) by (nonlinear_arith)
        requires
            rows >= 1,
            cols >= 1,
            0 <= i < rows,
            0 <= j < cols,
    ;
    lemma_fundamental_div_mod_converse(j * rows + i, rows, j, i);
}

/// What the transpose holds at entry `(j, i)`: the source entry `(i, j)`.
pub proof fn lemma_transpose_entry(s: Seq<u8>, rows: int, cols: int, i: int, j: int)
    requires
        rows >= 1,
        cols >= 1,
        s.len() == rows * cols,
        0 <= i < rows,
        0 <= j < cols,
    ensures
        0 <= j * rows + i < rows * cols,
        transpose_spec(s, rows, cols)[j * rows + i] == s[i * cols + j],
{
    lemma_entry_indices(rows, cols, i, j);
}

/// Round trip: transposing a `rows x cols` matrix and then transposing
/// the result with the dimensions swapped restores the original bytes.
pub proof fn lemma_transpose_round_trip(s: Seq<u8>, rows: int, cols: int)
    requires
        rows >= 1,
        cols >= 1,
        s.len() == rows * cols,
    ensures
        transpose_spec(transpose_spec(s, rows, cols), cols, rows) == s,
{
    let t1 = transpose_spec(s, rows, cols);
    let t2 = transpose_spec(t1, cols, rows);
    assert forall|k: int| 0 <= k < cols * rows implies t2[k] == s[k] by {
        let i: int = k / cols;
        let j: int = k % cols;
        lemma_fundamental_div_mod(k, cols);
        assert(0 <= i < rows) by (nonlinear_arith)
            requires
                cols >= 1,
                rows >= 1,
                0 <= k,
                k < cols * rows,
                i == k / cols,
        ;
        lemma_entry_indices(cols, rows, j, i);
        assert(t2[k] == t1[j * rows + i]);
        lemma_transpose_entry(s, rows, cols, i, j);
        assert(t1[j * rows + i] == s[i * cols + j]);
        assert(i * cols + j == k);
    };
    assert(cols * rows == rows * cols) by (nonlinear_arith);
    assert(t2 =~= s);
}

/// A square transpose is an involution: with `rows == cols`, running
/// the transpose twice with the same dimensions restores the original
/// bytes. (For a non-square matrix the second run uses the same "tall"
/// dimensions rather than the swapped ones, and the result is a
/// reshaped matrix, not the original.)
pub proof fn lemma_square_transpose_involution(s: Seq<u8>, n: int)
    requires
        n >= 1,
        s.len() == n * n,
    ensures
        transpose_spec(transpose_spec(s, n, n), n, n) == s,
{
    lemma_transpose_round_trip(s, n, n);
}

/// Cross-strategy equivalence: every strategy's contract pins its
/// output to [`transpose_spec`] of the same input and dimensions, so
/// any five outputs satisfying those contracts are byte-identical.
pub proof fn lemma_strategies_agree(
    input: Seq<u8>,
    rows: int,
    cols: int,
    whole: Seq<u8>,
    mapped: Seq<u8>,
    positional: Seq<u8>,
    buffered: Seq<u8>,
    fanned: Seq<u8>,
)
    requires
        whole == transpose_spec(input, rows, cols),
        mapped == transpose_spec(input, rows, cols),
        positional == transpose_spec(input, rows, cols),
        buffered == transpose_spec(input, rows, cols),
        fanned == transpose_spec(input, rows, cols),
    ensures
        whole == mapped,
        whole == positional,
        whole == buffered,
        whole == fanned,
{
}

} // verus!
