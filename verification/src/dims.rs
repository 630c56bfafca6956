use vstd::prelude::*;
use vstd::arithmetic::div_mod::lemma_fundamental_div_mod_converse_div;
use vstd::arithmetic::power::pow;
use vstd::arithmetic::power2::{
    is_pow2, is_pow2_equiv, is_pow2_exists, lemma_pow2, lemma_pow2_adds, lemma_pow2_pos,
    lemma_pow2_strictly_increases, lemma_pow2_unfold, lemma2_to64, pow2,
};

verus! {

/// Matrix dimensions derived from a single total byte size.
///
/// A dataset of `size` bytes is viewed as a row-major matrix of `rows`
/// rows of `cols` bytes each. The orientation convention is "tall":
/// `rows >= cols`, fixed once when the dimensions are planned.
#[derive(Clone, Copy, Debug)]
pub struct Dimensions {
    pub size: u64,
    pub rows: usize,
    pub cols: usize,
}

impl Dimensions {
    /// The dimension invariant: the matrix tiles the byte size exactly,
    /// is non-empty, and is at least as tall as it is wide.
    pub open spec fn wf(self) -> bool {
        &&& self.rows as int * self.cols as int == self.size as int
        &&& self.rows >= self.cols
        &&& self.cols >= 1
    }

    /// Fail-fast gate for dimensions that were not produced by
    /// [`plan_dimensions`]: accepts a triple exactly when it satisfies
    /// the dimension invariant, so a mismatched or "wide" triple is
    /// rejected before any transpose runs on it.
    pub fn checked(size: u64, rows: usize, cols: usize) -> (r: Option<Dimensions>)
        ensures
            match r {
                Some(d) => {
                    &&& d.size == size
                    &&& d.rows == rows
                    &&& d.cols == cols
                    &&& d.wf()
                },
                None => !({
                    &&& rows as int * cols as int == size as int
                    &&& rows >= cols
                    &&& cols >= 1
                }),
            },
    {
        proof {
            assert(rows as u128 as int * (cols as u128 as int) <= u128::MAX as int)
                by (nonlinear_arith)
                requires
                    rows as u128 <= u64::MAX as u128,
                    cols as u128 <= u64::MAX as u128,
            ;
        }
        if cols >= 1 && rows >= cols && (rows as u128) * (cols as u128) == (size as u128) {
            Some(Dimensions { size, rows, cols })
        } else {
            None
        }
    }
}

/// 2^e as a u64, computed by repeated doubling.
fn pow2_u64(e: u32) -> (r: u64)
    requires
        pow2(e as nat) <= u64::MAX,
    ensures
        r as nat == pow2(e as nat),
{
    let mut r: u64 = 1;
    let mut i: u32 = 0;
    proof {
        lemma2_to64();
    }
    while i < e
        invariant
            i <= e,
            r as nat == pow2(i as nat),
            pow2(e as nat) <= u64::MAX,
        decreases e - i,
    {
        proof {
            lemma_pow2_unfold((i + 1) as nat);
            if i + 1 < e {
                lemma_pow2_strictly_increases((i + 1) as nat, e as nat);
            }
        }
        r = r * 2;
        i = i + 1;
    }
    r
}

/// The planner's row count is minimal: any power of two `p` whose
/// square covers the size is at least `rows`, for a `rows` satisfying
/// [`plan_dimensions`]'s contract. Together they pin `rows` as the
/// next power of two at or above the ceiling square root of the size.
pub proof fn lemma_rows_least_pow2(size: int, rows: int, p: int)
    requires
        is_pow2(rows),
        is_pow2(p),
        rows * rows >= size,
        rows >= 2 ==> (rows / 2) * (rows / 2) < size,
        p * p >= size,
    ensures
        p >= rows,
{
    is_pow2_equiv(rows);
    is_pow2_equiv(p);
    let a = choose|a: nat| pow(2, a) == rows;
    let b = choose|b: nat| pow(2, b) == p;
    lemma_pow2(a);
    lemma_pow2(b);
    lemma_pow2_pos(a);
    lemma_pow2_pos(b);
    if p < rows {
        if a == 0 {
            // rows == 1 leaves no room for a smaller power of two
            lemma2_to64();
            assert(false);
        }
        if b >= a {
            if b > a {
                lemma_pow2_strictly_increases(a, b);
            }
            assert(false);
        }
        // p is at most rows / 2, whose square falls short of the size
        lemma_pow2_strictly_increases(0, a);
        lemma2_to64();
        lemma_pow2_unfold(a);
        if b < (a - 1) as nat {
            lemma_pow2_strictly_increases(b, (a - 1) as nat);
        }
        assert(p <= rows / 2);
        assert(p * p <= (rows / 2) * (rows / 2)) by (nonlinear_arith)
            requires
                0 < p,
                p <= rows / 2,
        ;
        assert(false);
    }
}

/// Derive dimensions from the log2 of the byte size.
///
/// `size = 2^log2_size`; `rows` is the least power of two whose square
/// covers `size` — equivalently, the next power of two at or above the
/// ceiling of the square root of `size` — and `cols = size / rows`.
/// For power-of-two sizes this always yields `rows >= cols`, so the
/// invariant holds for every allowed input.
pub fn plan_dimensions(log2_size: u32) -> (d: Dimensions)
    requires
        log2_size <= 62,
    ensures
        d.wf(),
        d.size as nat == pow2(log2_size as nat),
        is_pow2(d.rows as int),
        d.rows as int * d.rows as int >= d.size as int,
        d.rows >= 2 ==> (d.rows as int / 2) * (d.rows as int / 2) < d.size as int,
        d.cols as int == d.size as int / d.rows as int,
{
    let k: u32 = log2_size;
    let half_up: u32 = (k + 1) / 2;
    let half_down: u32 = k - half_up;
    proof {
        lemma2_to64();
        // every exponent in play stays below 64, so each pow2 fits in u64
        lemma_pow2_strictly_increases(k as nat, 64);
        lemma_pow2_strictly_increases(half_up as nat, 64);
        lemma_pow2_strictly_increases(half_down as nat, 64);
    }
    let size: u64 = pow2_u64(k);
    let rows_u64: u64 = pow2_u64(half_up);
    let cols_u64: u64 = pow2_u64(half_down);
    proof {
        // rows and cols fit in a usize on every supported platform
        lemma_pow2_strictly_increases(half_up as nat, 32);
        lemma_pow2_strictly_increases(half_down as nat, 32);
    }
    let rows: usize = rows_u64 as usize;
    let cols: usize = cols_u64 as usize;
    proof {
        lemma_pow2_pos(half_up as nat);
        lemma_pow2_pos(half_down as nat);
        // rows * cols == size
        lemma_pow2_adds(half_up as nat, half_down as nat);
        // rows >= cols
        if half_down < half_up {
            lemma_pow2_strictly_increases(half_down as nat, half_up as nat);
        }
        // rows is a power of two
        lemma_pow2(half_up as nat);
        assert(is_pow2_exists(rows as int));
        is_pow2_equiv(rows as int);
        // rows * rows >= size, since 2 * half_up >= k
        lemma_pow2_adds(half_up as nat, half_up as nat);
        if (k as nat) < half_up as nat + half_up as nat {
            lemma_pow2_strictly_increases(k as nat, half_up as nat + half_up as nat);
        }
        // (rows / 2)^2 < size when rows >= 2, since 2 * half_up - 2 < k
        if half_up >= 1 {
            lemma_pow2_unfold(half_up as nat);
            lemma_pow2_adds((half_up - 1) as nat, (half_up - 1) as nat);
            lemma_pow2_strictly_increases(
                ((half_up - 1) + (half_up - 1)) as nat,
                k as nat,
            );
        }
        // cols == size / rows
        assert(size as nat == rows as nat * (cols as nat));
        assert(size as int == cols as int * (rows as int) + 0) by (nonlinear_arith)
            requires
                size as nat == rows as nat * (cols as nat),
        ;
        lemma_fundamental_div_mod_converse_div(
            size as int,
            rows as int,
            cols as int,
            0,
        );
    }
    Dimensions { size, rows, cols }
}

} // verus!
