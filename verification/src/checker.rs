use vstd::prelude::*;

verus! {

/// Size of the chunks the checker compares at a time.
pub const CHECK_CHUNK: usize = 1024;

/// Byte-exact equality between the contents of two files.
///
/// Returns `false` at once when the lengths differ, without looking at
/// a single byte. Otherwise the contents are compared in chunks of
/// [`CHECK_CHUNK`] bytes read sequentially from each, returning `false`
/// at the first differing byte and `true` only when every chunk
/// compares equal through to the end.
pub fn files_equal(a: &Vec<u8>, b: &Vec<u8>) -> (r: bool)
    ensures
        r == (a@ == b@),
{
    if a.len() != b.len() {
        return false;
    }
    let n: usize = a.len();
    let mut pos: usize = 0;
    while pos < n
        invariant
            pos <= n,
            a@.len() == n,
            b@.len() == n,
            forall|k: int| 0 <= k < pos ==> a@[k] == b@[k],
        decreases n - pos,
    {
        let end: usize = if n - pos < CHECK_CHUNK {
            n
        } else {
            pos + CHECK_CHUNK
        };
        let mut t: usize = pos;
        while t < end
            invariant
                pos <= t,
                t <= end,
                end <= n,
                a@.len() == n,
                b@.len() == n,
                forall|k: int| 0 <= k < t ==> a@[k] == b@[k],
            decreases end - t,
        {
            if a[t] != b[t] {
                return false;
            }
            t = t + 1;
        }
        pos = end;
    }
    proof {
        assert(a@ =~= b@);
    }
    true
}

/// A single flipped byte is detected: equal-length contents that differ
/// at any one position are unequal, so [`files_equal`] reports `false`
/// on them.
pub proof fn lemma_flip_detected(a: Seq<u8>, b: Seq<u8>, k: int)
    requires
        a.len() == b.len(),
        0 <= k < a.len(),
        a[k] != b[k],
    ensures
        a != b,
{
}

/// Contents of different lengths are unequal, so [`files_equal`]
/// reports `false` on them — by its contract, independently of what
/// any byte holds.
pub proof fn lemma_length_mismatch(a: Seq<u8>, b: Seq<u8>)
    requires
        a.len() != b.len(),
    ensures
        a != b,
{
}

} // verus!
