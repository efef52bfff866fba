//! Counting occurrences of a task label in a sequence, used to state the
//! delivery guarantees of the pool.

use vstd::prelude::*;

verus! {

/// How many times `t` occurs in `s`.
pub open spec fn occurrences(s: Seq<u64>, t: u64) -> nat
    decreases s.len(),
{
    if s.len() == 0 {
        0
    } else {
        occurrences(s.drop_last(), t) + if s.last() == t {
            1nat
        } else {
            0nat
        }
    }
}

/// Occurrence counts add up across concatenation.
pub proof fn lemma_occurrences_concat(a: Seq<u64>, b: Seq<u64>, t: u64)
    ensures
        occurrences(a + b, t) == occurrences(a, t) + occurrences(b, t),
    decreases b.len(),
{
    if b.len() == 0 {
        assert(a + b =~= a);
    } else {
        lemma_occurrences_concat(a, b.drop_last(), t);
        assert((a + b).drop_last() =~= a + b.drop_last());
        assert((a + b).last() == b.last());
    }
}

} // verus!
