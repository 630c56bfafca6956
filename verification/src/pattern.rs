use vstd::prelude::*;
use vstd::arithmetic::div_mod::{
    lemma_fundamental_div_mod, lemma_fundamental_div_mod_converse_mod,
};

verus! {

/// Length of the repeating printable-byte cycle used to fill datasets.
pub const PATTERN_PERIOD: usize = 75;

/// The printable-byte cycle: lower-case letters, upper-case letters,
/// digits, then a run of punctuation. Datasets are filled by repeating
/// this cycle, so their content is deterministic and easy to inspect.
pub open spec fn alphabet() -> Seq<u8> {
    seq![
        97u8, 98u8, 99u8, 100u8, 101u8, 102u8, 103u8, 104u8, 105u8, 106u8, 107u8, 108u8,
        109u8, 110u8, 111u8, 112u8, 113u8, 114u8, 115u8, 116u8, 117u8, 118u8, 119u8, 120u8,
        121u8, 122u8, 65u8, 66u8, 67u8, 68u8, 69u8, 70u8, 71u8, 72u8, 73u8, 74u8, 75u8,
        76u8, 77u8, 78u8, 79u8, 80u8, 81u8, 82u8, 83u8, 84u8, 85u8, 86u8, 87u8, 88u8,
        89u8, 90u8, 48u8, 49u8, 50u8, 51u8, 52u8, 53u8, 54u8, 55u8, 56u8, 57u8, 33u8,
        64u8, 35u8, 36u8, 94u8, 38u8, 42u8, 40u8, 41u8, 45u8, 43u8, 91u8, 93u8,
    ]
}

/// The first `n` bytes of the infinite repetition of [`alphabet`].
pub open spec fn pattern_spec(n: nat) -> Seq<u8> {
    Seq::new(n, |i: int| alphabet()[i % (PATTERN_PERIOD as int)])
}

/// The alphabet as an executable byte vector.
pub fn alphabet_vec() -> (v: Vec<u8>)
    ensures
        v@ == alphabet(),
        v@.len() == PATTERN_PERIOD,
{
    let v: Vec<u8> = vec![
        97u8, 98u8, 99u8, 100u8, 101u8, 102u8, 103u8, 104u8, 105u8, 106u8, 107u8, 108u8,
        109u8, 110u8, 111u8, 112u8, 113u8, 114u8, 115u8, 116u8, 117u8, 118u8, 119u8, 120u8,
        121u8, 122u8, 65u8, 66u8, 67u8, 68u8, 69u8, 70u8, 71u8, 72u8, 73u8, 74u8, 75u8,
        76u8, 77u8, 78u8, 79u8, 80u8, 81u8, 82u8, 83u8, 84u8, 85u8, 86u8, 87u8, 88u8,
        89u8, 90u8, 48u8, 49u8, 50u8, 51u8, 52u8, 53u8, 54u8, 55u8, 56u8, 57u8, 33u8,
        64u8, 35u8, 36u8, 94u8, 38u8, 42u8, 40u8, 41u8, 45u8, 43u8, 91u8, 93u8,
    ];
    proof {
        assert(v@ =~= alphabet());
    }
    v
}

/// Produce the deterministic dataset content: exactly `n` bytes of the
/// repeating printable cycle. Re-running with the same `n` yields
/// byte-identical content.
pub fn generate_pattern(n: usize) -> (v: Vec<u8>)
    ensures
        v@ == pattern_spec(n as nat),
        v@.len() == n,
{
    let alpha: Vec<u8> = alphabet_vec();
    let mut v: Vec<u8> = Vec::new();
    let mut idx: usize = 0;
    let mut i: usize = 0;
    while i < n
        invariant
            i <= n,
            alpha@ == alphabet(),
            idx < PATTERN_PERIOD,
            idx as int == i as int % (PATTERN_PERIOD as int),
            v@.len() == i,
            forall|t: int| 0 <= t < i ==> v@[t] == alphabet()[t % (PATTERN_PERIOD as int)],
        decreases n - i,
    {
        v.push(alpha[idx]);
        proof {
            let p: int = PATTERN_PERIOD as int;
            lemma_fundamental_div_mod(i as int, p);
            if idx + 1 == PATTERN_PERIOD {
                lemma_fundamental_div_mod_converse_mod(i as int + 1, p, i as int / p + 1, 0);
            } else {
                lemma_fundamental_div_mod_converse_mod(i as int + 1, p, i as int / p, idx as int + 1);
            }
        }
        idx = idx + 1;
        if idx == PATTERN_PERIOD {
            idx = 0;
        }
        i = i + 1;
    }
    proof {
        assert(v@ =~= pattern_spec(n as nat));
    }
    v
}

/// Decide whether the dataset file must be (re)written: a file that
/// already has exactly the required length is reused unchanged, which
/// makes dataset setup idempotent; a missing file, or one of any other
/// length, is regenerated.
pub fn should_regenerate(existing_len: Option<u64>, size: u64) -> (r: bool)
    ensures
        r == !(existing_len == Some(size)),
{
    match existing_len {
        Some(l) => l != size,
        None => true,
    }
}

} // verus!
