use vstd::prelude::*;
use vstd::arithmetic::div_mod::lemma_fundamental_div_mod;
use crate::dims::Dimensions;
use crate::transpose::{lemma_entry_indices, lemma_transpose_entry, transpose_spec};

verus! {

/// A zero-filled byte vector of length `n`, modelling a freshly
/// preallocated output extent.
fn zeroed(n: usize) -> (v: Vec<u8>)
    ensures
        v@.len() == n,
        forall|k: int| 0 <= k < n ==> v@[k] == 0u8,
{
    let mut v: Vec<u8> = Vec::new();
    let mut i: usize = 0;
    while i < n
        invariant
            i <= n,
            v@.len() == i,
            forall|k: int| 0 <= k < i ==> v@[k] == 0u8,
        decreases n - i,
    {
        v.push(0u8);
        i = i + 1;
    }
    v
}

/// Flat index of source entry `(i, j)` in the row-major input matrix.
pub fn source_index(d: &Dimensions, i: usize, j: usize) -> (k: usize)
    requires
        d.wf(),
        d.size as int <= usize::MAX as int,
        i < d.rows,
        j < d.cols,
    ensures
        k as int == i as int * (d.cols as int) + j as int,
        k < d.size,
{
    proof {
        lemma_entry_indices(d.rows as int, d.cols as int, i as int, j as int);
    }
    i * d.cols + j
}

/// Flat index in the output where source entry `(i, j)` lands: row `j`,
/// column `i` of the transposed matrix.
pub fn target_index(d: &Dimensions, i: usize, j: usize) -> (k: usize)
    requires
        d.wf(),
        d.size as int <= usize::MAX as int,
        i < d.rows,
        j < d.cols,
    ensures
        k as int == j as int * (d.rows as int) + i as int,
        k < d.size,
{
    proof {
        lemma_entry_indices(d.rows as int, d.cols as int, i as int, j as int);
    }
    j * d.rows + i
}

/// Once every source row below `done` has been scattered, every output
/// position whose source row is below `done` holds its transposed byte.
spec fn rows_scattered(out: Seq<u8>, ts: Seq<u8>, rows: int, done: int) -> bool {
    forall|k: int| #![trigger out[k]] 0 <= k < out.len() && k % rows < done ==> out[k] == ts[k]
}

/// The shared element mapping of the in-memory and mapped strategies:
/// walk the source row-major and write each byte straight to its
/// transposed position in the preallocated output.
fn transpose_into(input: &Vec<u8>, d: &Dimensions, out: &mut Vec<u8>)
    requires
        d.wf(),
        input@.len() == d.size,
        old(out)@.len() == d.size,
    ensures
        final(out)@ == transpose_spec(input@, d.rows as int, d.cols as int),
{
    let rows: usize = d.rows;
    let cols: usize = d.cols;
    let n: usize = input.len();
    let ghost ts: Seq<u8> = transpose_spec(input@, rows as int, cols as int);
    let mut i: usize = 0;
    while i < rows
        invariant
            i <= rows,
            rows == d.rows,
            cols == d.cols,
            d.wf(),
            input@.len() == d.size,
            n == d.size,
            ts == transpose_spec(input@, rows as int, cols as int),
            out@.len() == n,
            rows_scattered(out@, ts, rows as int, i as int),
        decreases rows - i,
    {
        let mut j: usize = 0;
        while j < cols
            invariant
                i < rows,
                j <= cols,
                rows == d.rows,
                cols == d.cols,
                d.wf(),
                input@.len() == d.size,
                n == d.size,
                ts == transpose_spec(input@, rows as int, cols as int),
                out@.len() == n,
                rows_scattered(out@, ts, rows as int, i as int),
                forall|k: int| #![trigger out@[k]]
                    0 <= k < n && k % (rows as int) == i as int && k / (rows as int) < j as int
                        ==> out@[k] == ts[k],
            decreases cols - j,
        {
            proof {
                lemma_entry_indices(rows as int, cols as int, i as int, j as int);
                lemma_transpose_entry(input@, rows as int, cols as int, i as int, j as int);
            }
            let b: u8 = input[i * cols + j];
            out.set(j * rows + i, b);
            proof {
                assert forall|k: int|
                    0 <= k < n && k % (rows as int) == i as int && k / (rows as int) < j as int + 1
                        implies out@[k] == ts[k] by {
                    lemma_fundamental_div_mod(k, rows as int);
                    assert(rows as int * (k / (rows as int)) == (k / (rows as int)) * (rows as int))
                        by (nonlinear_arith);
                };
            }
            j = j + 1;
        }
        proof {
            assert forall|k: int|
                0 <= k < n && k % (rows as int) < i as int + 1 implies out@[k] == ts[k] by {
                if k % (rows as int) == i as int {
                    lemma_fundamental_div_mod(k, rows as int);
                    assert(k / (rows as int) < cols as int) by (nonlinear_arith)
                        requires
                            rows as int >= 1,
                            cols as int >= 1,
                            0 <= k,
                            k < rows as int * (cols as int),
                            k == rows as int * (k / (rows as int)) + k % (rows as int),
                            0 <= k % (rows as int) < rows as int,
                    ;
                }
            };
        }
        i = i + 1;
    }
    proof {
        assert(out@ =~= ts);
    }
}

/// The naive on-disk strategy's transform: for each source row, one
/// positional read of `cols` bytes into a row buffer, then `cols`
/// positional single-byte writes scattered across the whole output
/// extent — the worst case for write amplification, with one write per
/// matrix entry.
pub fn positional_io_transpose(input: &Vec<u8>, d: &Dimensions) -> (out: Vec<u8>)
    requires
        d.wf(),
        input@.len() == d.size,
    ensures
        out@ == transpose_spec(input@, d.rows as int, d.cols as int),
{
    let rows: usize = d.rows;
    let cols: usize = d.cols;
    let n: usize = input.len();
    let ghost ts: Seq<u8> = transpose_spec(input@, rows as int, cols as int);
    let mut out: Vec<u8> = zeroed(n);
    let mut row_buf: Vec<u8> = zeroed(cols);
    let mut i: usize = 0;
    while i < rows
        invariant
            i <= rows,
            rows == d.rows,
            cols == d.cols,
            d.wf(),
            input@.len() == d.size,
            n == d.size,
            ts == transpose_spec(input@, rows as int, cols as int),
            out@.len() == n,
            row_buf@.len() == cols,
            rows_scattered(out@, ts, rows as int, i as int),
        decreases rows - i,
    {
        let mut j: usize = 0;
        while j < cols
            invariant
                i < rows,
                j <= cols,
                rows == d.rows,
                cols == d.cols,
                d.wf(),
                input@.len() == d.size,
                n == d.size,
                row_buf@.len() == cols,
                forall|t: int| #![trigger row_buf@[t]]
                    0 <= t < j ==> row_buf@[t] == input@[i as int * (cols as int) + t],
            decreases cols - j,
        {
            proof {
                lemma_entry_indices(rows as int, cols as int, i as int, j as int);
            }
            let b: u8 = input[i * cols + j];
            row_buf.set(j, b);
            j = j + 1;
        }
        let mut j: usize = 0;
        while j < cols
            invariant
                i < rows,
                j <= cols,
                rows == d.rows,
                cols == d.cols,
                d.wf(),
                input@.len() == d.size,
                n == d.size,
                ts == transpose_spec(input@, rows as int, cols as int),
                out@.len() == n,
                row_buf@.len() == cols,
                forall|t: int| #![trigger row_buf@[t]]
                    0 <= t < cols ==> row_buf@[t] == input@[i as int * (cols as int) + t],
                rows_scattered(out@, ts, rows as int, i as int),
                forall|k: int| #![trigger out@[k]]
                    0 <= k < n && k % (rows as int) == i as int && k / (rows as int) < j as int
                        ==> out@[k] == ts[k],
            decreases cols - j,
        {
            proof {
                lemma_entry_indices(rows as int, cols as int, i as int, j as int);
                lemma_transpose_entry(input@, rows as int, cols as int, i as int, j as int);
            }
            let b: u8 = row_buf[j];
            out.set(j * rows + i, b);
            proof {
                assert forall|k: int|
                    0 <= k < n && k % (rows as int) == i as int && k / (rows as int) < j as int + 1
                        implies out@[k] == ts[k] by {
                    lemma_fundamental_div_mod(k, rows as int);
                    assert(rows as int * (k / (rows as int)) == (k / (rows as int)) * (rows as int))
                        by (nonlinear_arith);
                };
            }
            j = j + 1;
        }
        proof {
            assert forall|k: int|
                0 <= k < n && k % (rows as int) < i as int + 1 implies out@[k] == ts[k] by {
                if k % (rows as int) == i as int {
                    lemma_fundamental_div_mod(k, rows as int);
                    assert(k / (rows as int) < cols as int) by (nonlinear_arith)
                        requires
                            rows as int >= 1,
                            cols as int >= 1,
                            0 <= k,
                            k < rows as int * (cols as int),
                            k == rows as int * (k / (rows as int)) + k % (rows as int),
                            0 <= k % (rows as int) < rows as int,
                    ;
                }
            };
        }
        i = i + 1;
    }
    proof {
        assert(out@ =~= ts);
    }
    out
}

/// The buffered on-disk strategy's transform: `cols` per-column byte
/// accumulators, each capped at `capacity` bytes. Each source row is
/// read once and scattered one byte per accumulator — every accumulator
/// is touched by exactly one scatter per row, so the destinations are
/// disjoint. When the accumulators reach the cap, or the final source
/// row has been absorbed, each accumulator is flushed with one
/// positional write at `write_cursor + column * rows`, all accumulators
/// are cleared, and the cursor advances by the number of rows flushed.
/// This amortizes the write count at the cost of transient memory.
pub fn buffered_positional_io_transpose(input: &Vec<u8>, d: &Dimensions, capacity: usize) -> (out:
    Vec<u8>)
    requires
        d.wf(),
        input@.len() == d.size,
        capacity >= 1,
    ensures
        out@ == transpose_spec(input@, d.rows as int, d.cols as int),
{
    let rows: usize = d.rows;
    let cols: usize = d.cols;
    let n: usize = input.len();
    let ghost ts: Seq<u8> = transpose_spec(input@, rows as int, cols as int);
    let mut out: Vec<u8> = zeroed(n);
    let mut accs: Vec<Vec<u8>> = Vec::new();
    while accs.len() < cols
        invariant
            accs@.len() <= cols,
            forall|c: int| #![trigger accs@[c]] 0 <= c < accs@.len() ==> accs@[c]@.len() == 0,
        decreases cols - accs.len(),
    {
        accs.push(Vec::new());
    }
    let mut write_cursor: usize = 0;
    let mut i: usize = 0;
    while i < rows
        invariant
            write_cursor <= i,
            i <= rows,
            i == rows ==> write_cursor == rows,
            rows == d.rows,
            cols == d.cols,
            d.wf(),
            input@.len() == d.size,
            n == d.size,
            capacity >= 1,
            ts == transpose_spec(input@, rows as int, cols as int),
            out@.len() == n,
            accs@.len() == cols,
            forall|c: int| #![trigger accs@[c]]
                0 <= c < cols ==> accs@[c]@.len() == i - write_cursor,
            forall|c: int, t: int| #![trigger accs@[c]@[t]]
                0 <= c < cols && 0 <= t < i - write_cursor
                    ==> accs@[c]@[t] == input@[(write_cursor + t) * (cols as int) + c],
            rows_scattered(out@, ts, rows as int, write_cursor as int),
        decreases rows - i,
    {
        // absorb source row i: one byte into each column accumulator
        let mut j: usize = 0;
        while j < cols
            invariant
                i < rows,
                j <= cols,
                write_cursor <= i,
                rows == d.rows,
                cols == d.cols,
                d.wf(),
                input@.len() == d.size,
                n == d.size,
                accs@.len() == cols,
                forall|c: int| #![trigger accs@[c]]
                    0 <= c < j ==> accs@[c]@.len() == i - write_cursor + 1,
                forall|c: int| #![trigger accs@[c]]
                    j <= c < cols ==> accs@[c]@.len() == i - write_cursor,
                forall|c: int, t: int| #![trigger accs@[c]@[t]]
                    0 <= c < cols && 0 <= t < i - write_cursor
                        ==> accs@[c]@[t] == input@[(write_cursor + t) * (cols as int) + c],
                forall|c: int| #![trigger accs@[c]]
                    0 <= c < j ==> accs@[c]@[i - write_cursor] == input@[i as int * (cols as int)
                        + c],
            decreases cols - j,
        {
            proof {
                lemma_entry_indices(rows as int, cols as int, i as int, j as int);
            }
            let b: u8 = input[i * cols + j];
            accs[j].push(b);
            j = j + 1;
        }
        // flush once the cap is reached, and after the final source row
        if accs[0].len() >= capacity || i == rows - 1 {
            let held: usize = i + 1 - write_cursor;
            let mut c: usize = 0;
            while c < cols
                invariant
                    i < rows,
                    c <= cols,
                    write_cursor <= i,
                    held == i + 1 - write_cursor,
                    rows == d.rows,
                    cols == d.cols,
                    d.wf(),
                    input@.len() == d.size,
                    n == d.size,
                    ts == transpose_spec(input@, rows as int, cols as int),
                    out@.len() == n,
                    accs@.len() == cols,
                    forall|cc: int| #![trigger accs@[cc]]
                        0 <= cc < cols ==> accs@[cc]@.len() == held,
                    forall|cc: int, t: int| #![trigger accs@[cc]@[t]]
                        0 <= cc < cols && 0 <= t < held
                            ==> accs@[cc]@[t] == input@[(write_cursor + t) * (cols as int) + cc],
                    rows_scattered(out@, ts, rows as int, write_cursor as int),
                    forall|k: int| #![trigger out@[k]]
                        0 <= k < n && write_cursor <= k % (rows as int)
                            && k % (rows as int) < write_cursor + held && k / (rows as int) < c
                            ==> out@[k] == ts[k],
                decreases cols - c,
            {
                let mut t: usize = 0;
                while t < held
                    invariant
                        i < rows,
                        c < cols,
                        t <= held,
                        write_cursor <= i,
                        held == i + 1 - write_cursor,
                        rows == d.rows,
                        cols == d.cols,
                        d.wf(),
                        input@.len() == d.size,
                        n == d.size,
                        ts == transpose_spec(input@, rows as int, cols as int),
                        out@.len() == n,
                        accs@.len() == cols,
                        forall|cc: int| #![trigger accs@[cc]]
                            0 <= cc < cols ==> accs@[cc]@.len() == held,
                        forall|cc: int, tt: int| #![trigger accs@[cc]@[tt]]
                            0 <= cc < cols && 0 <= tt < held
                                ==> accs@[cc]@[tt] == input@[(write_cursor + tt) * (cols as int)
                                    + cc],
                        rows_scattered(out@, ts, rows as int, write_cursor as int),
                        forall|k: int| #![trigger out@[k]]
                            0 <= k < n && write_cursor <= k % (rows as int)
                                && k % (rows as int) < write_cursor + held && k / (rows as int) < c
                                ==> out@[k] == ts[k],
                        forall|k: int| #![trigger out@[k]]
                            0 <= k < n && write_cursor <= k % (rows as int)
                                && k % (rows as int) < write_cursor + t && k / (rows as int) == c
                                ==> out@[k] == ts[k],
                    decreases held - t,
                {
                    proof {
                        lemma_entry_indices(rows as int, cols as int, write_cursor as int
                            + t as int, c as int);
                        lemma_transpose_entry(input@, rows as int, cols as int, write_cursor as int
                            + t as int, c as int);
                    }
                    let b: u8 = accs[c][t];
                    out.set(write_cursor + t + c * rows, b);
                    proof {
                        assert forall|k: int|
                            0 <= k < n && write_cursor <= k % (rows as int)
                                && k % (rows as int) < write_cursor + t + 1
                                && k / (rows as int) == c implies out@[k] == ts[k] by {
                            lemma_fundamental_div_mod(k, rows as int);
                            assert(rows as int * (k / (rows as int)) == (k / (rows as int)) * (
                            rows as int)) by (nonlinear_arith);
                        };
                    }
                    t = t + 1;
                }
                c = c + 1;
            }
            // clear all accumulators and advance the cursor
            let mut c: usize = 0;
            while c < cols
                invariant
                    c <= cols,
                    accs@.len() == cols,
                    forall|cc: int| #![trigger accs@[cc]] 0 <= cc < c ==> accs@[cc]@.len() == 0,
                decreases cols - c,
            {
                accs[c].clear();
                c = c + 1;
            }
            proof {
                assert forall|k: int|
                    0 <= k < n && k % (rows as int) < i as int + 1 implies out@[k] == ts[k] by {
                    if write_cursor <= k % (rows as int) {
                        lemma_fundamental_div_mod(k, rows as int);
                        assert(k / (rows as int) < cols as int) by (nonlinear_arith)
                            requires
                                rows as int >= 1,
                                cols as int >= 1,
                                0 <= k,
                                k < rows as int * (cols as int),
                                k == rows as int * (k / (rows as int)) + k % (rows as int),
                                0 <= k % (rows as int) < rows as int,
                        ;
                    }
                };
            }
            write_cursor = i + 1;
        }
        i = i + 1;
    }
    proof {
        assert(out@ =~= ts);
    }
    out
}

/// The whole-buffer (in-memory) strategy: the entire input is already
/// resident in one buffer; allocate a second `size`-byte buffer and
/// fill it with the out-of-place rectangular transpose. This is the
/// reference strategy the others are checked against.
pub fn whole_buffer_transpose(input: &Vec<u8>, d: &Dimensions) -> (out: Vec<u8>)
    requires
        d.wf(),
        input@.len() == d.size,
    ensures
        out@ == transpose_spec(input@, d.rows as int, d.cols as int),
{
    let mut out: Vec<u8> = zeroed(input.len());
    transpose_into(input, d, &mut out);
    out
}

/// The mapped strategy's transform: the output extent is preallocated
/// (a memory-mapped file in the benchmarked setting) and each byte is
/// written through it in place, with no intermediate output buffer.
pub fn mapped_transpose(input: &Vec<u8>, d: &Dimensions, out: &mut Vec<u8>)
    requires
        d.wf(),
        input@.len() == d.size,
        old(out)@.len() == d.size,
    ensures
        final(out)@ == transpose_spec(input@, d.rows as int, d.cols as int),
{
    transpose_into(input, d, out);
}

/// The fan-out strategy's transform: one scratch accumulator per
/// output row (a temp file in the benchmarked setting), created up
/// front. Byte `j` of source row `i` is scattered to accumulator `j`,
/// so after all source rows accumulator `j` holds transposed row `j` in
/// order; with a tall matrix only the first `cols` accumulators ever
/// receive bytes. The accumulators are then concatenated in index order
/// into the output.
pub fn row_fan_out_transpose(input: &Vec<u8>, d: &Dimensions) -> (out: Vec<u8>)
    requires
        d.wf(),
        input@.len() == d.size,
    ensures
        out@ == transpose_spec(input@, d.rows as int, d.cols as int),
{
    let rows: usize = d.rows;
    let cols: usize = d.cols;
    let n: usize = input.len();
    let ghost ts: Seq<u8> = transpose_spec(input@, rows as int, cols as int);
    let mut temps: Vec<Vec<u8>> = Vec::new();
    while temps.len() < rows
        invariant
            temps@.len() <= rows,
            forall|q: int| #![trigger temps@[q]] 0 <= q < temps@.len() ==> temps@[q]@.len() == 0,
        decreases rows - temps.len(),
    {
        temps.push(Vec::new());
    }
    let mut i: usize = 0;
    while i < rows
        invariant
            i <= rows,
            rows == d.rows,
            cols == d.cols,
            d.wf(),
            input@.len() == d.size,
            n == d.size,
            temps@.len() == rows,
            forall|q: int| #![trigger temps@[q]] 0 <= q < cols ==> temps@[q]@.len() == i,
            forall|q: int| #![trigger temps@[q]] cols <= q < rows ==> temps@[q]@.len() == 0,
            forall|q: int, t: int| #![trigger temps@[q]@[t]]
                0 <= q < cols && 0 <= t < i ==> temps@[q]@[t] == input@[t * (cols as int) + q],
        decreases rows - i,
    {
        let mut j: usize = 0;
        while j < cols
            invariant
                i < rows,
                j <= cols,
                rows == d.rows,
                cols == d.cols,
                d.wf(),
                input@.len() == d.size,
                n == d.size,
                temps@.len() == rows,
                forall|q: int| #![trigger temps@[q]] 0 <= q < j ==> temps@[q]@.len() == i + 1,
                forall|q: int| #![trigger temps@[q]] j <= q < cols ==> temps@[q]@.len() == i,
                forall|q: int| #![trigger temps@[q]] cols <= q < rows ==> temps@[q]@.len() == 0,
                forall|q: int, t: int| #![trigger temps@[q]@[t]]
                    0 <= q < cols && 0 <= t < i ==> temps@[q]@[t] == input@[t * (cols as int) + q],
                forall|q: int| #![trigger temps@[q]]
                    0 <= q < j ==> temps@[q]@[i as int] == input@[i as int * (cols as int) + q],
            decreases cols - j,
        {
            proof {
                lemma_entry_indices(rows as int, cols as int, i as int, j as int);
            }
            let b: u8 = input[i * cols + j];
            temps[j].push(b);
            j = j + 1;
        }
        i = i + 1;
    }
    // concatenate the accumulators in index order
    let mut out: Vec<u8> = Vec::new();
    let mut j: usize = 0;
    while j < rows
        invariant
            j <= rows,
            rows == d.rows,
            cols == d.cols,
            d.wf(),
            input@.len() == d.size,
            n == d.size,
            ts == transpose_spec(input@, rows as int, cols as int),
            temps@.len() == rows,
            forall|q: int| #![trigger temps@[q]] 0 <= q < cols ==> temps@[q]@.len() == rows,
            forall|q: int| #![trigger temps@[q]] cols <= q < rows ==> temps@[q]@.len() == 0,
            forall|q: int, t: int| #![trigger temps@[q]@[t]]
                0 <= q < cols && 0 <= t < rows ==> temps@[q]@[t] == input@[t * (cols as int) + q],
            out@.len() as int == (if j as int <= cols as int {
                j as int * (rows as int)
            } else {
                n as int
            }),
            forall|k: int| #![trigger out@[k]] 0 <= k < out@.len() ==> out@[k] == ts[k],
        decreases rows - j,
    {
        let m: usize = temps[j].len();
        let mut t: usize = 0;
        while t < m
            invariant
                j < rows,
                t <= m,
                rows == d.rows,
                cols == d.cols,
                d.wf(),
                input@.len() == d.size,
                n == d.size,
                ts == transpose_spec(input@, rows as int, cols as int),
                temps@.len() == rows,
                forall|q: int| #![trigger temps@[q]] 0 <= q < cols ==> temps@[q]@.len() == rows,
                forall|q: int| #![trigger temps@[q]] cols <= q < rows ==> temps@[q]@.len() == 0,
                forall|q: int, tt: int| #![trigger temps@[q]@[tt]]
                    0 <= q < cols && 0 <= tt < rows ==> temps@[q]@[tt] == input@[tt * (
                    cols as int) + q],
                j < cols ==> m == rows,
                cols <= j ==> m == 0,
                j < cols ==> out@.len() as int == j as int * (rows as int) + t as int,
                cols <= j ==> out@.len() as int == n as int,
                forall|k: int| #![trigger out@[k]] 0 <= k < out@.len() ==> out@[k] == ts[k],
            decreases m - t,
        {
            proof {
                lemma_entry_indices(rows as int, cols as int, t as int, j as int);
                lemma_transpose_entry(input@, rows as int, cols as int, t as int, j as int);
            }
            let b: u8 = temps[j][t];
            out.push(b);
            t = t + 1;
        }
        proof {
            if j < cols {
                assert((j as int + 1) * (rows as int) == j as int * (rows as int) + rows as int)
                    by (nonlinear_arith);
            }
            assert(cols as int * (rows as int) == rows as int * (cols as int))
                by (nonlinear_arith);
        }
        j = j + 1;
    }
    proof {
        assert(cols as int * (rows as int) == rows as int * (cols as int)) by (nonlinear_arith);
        assert(out@ =~= ts);
    }
    out
}

/// The five transpose strategies, as selectable variants. The harness
/// dispatches over the selected set rather than over duplicated
/// top-level procedures.
#[derive(Clone, Copy, Debug, PartialEq, Eq, Structural)]
pub enum StrategyKind {
    WholeBuffer,
    Mapped,
    PositionalIo,
    BufferedPositionalIo,
    RowFanOut,
}

/// Run one strategy over in-memory input. Whichever variant is chosen,
/// the output is the canonical transpose — the strategies differ only
/// in their buffering and write scheduling, never in their result.
/// `capacity` is the accumulator cap of the buffered strategy and is
/// ignored by the others.
pub fn run_strategy(kind: StrategyKind, input: &Vec<u8>, d: &Dimensions, capacity: usize) -> (out:
    Vec<u8>)
    requires
        d.wf(),
        input@.len() == d.size,
        capacity >= 1,
    ensures
        out@ == transpose_spec(input@, d.rows as int, d.cols as int),
{
    match kind {
        StrategyKind::WholeBuffer => whole_buffer_transpose(input, d),
        StrategyKind::Mapped => {
            let mut out: Vec<u8> = zeroed(input.len());
            mapped_transpose(input, d, &mut out);
            out
        },
        StrategyKind::PositionalIo => positional_io_transpose(input, d),
        StrategyKind::BufferedPositionalIo => buffered_positional_io_transpose(input, d, capacity),
        StrategyKind::RowFanOut => row_fan_out_transpose(input, d),
    }
}

} // verus!
