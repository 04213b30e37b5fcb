use vstd::prelude::*;

verus! {

/// The models of the items of `s`, in order.
pub open spec fn views<T: View>(s: Seq<T>) -> Seq<T::V> {
    Seq::new(s.len(), |i: int| s[i]@)
}

/// How often `x` occurs in `s`.
pub open spec fn occurrences(s: Seq<i32>, x: int) -> nat
    decreases s.len(),
{
    if s.len() == 0 {
        0
    } else {
        occurrences(s.drop_last(), x) + if s.last() == x {
            1nat
        } else {
            0nat
        }
    }
}

/// A prefix holds no more occurrences than the whole.
pub proof fn lemma_occurrences_prefix(s: Seq<i32>, n: int, x: int)
    requires
        0 <= n <= s.len(),
    ensures
        occurrences(s.take(n), x) <= occurrences(s, x),
    decreases s.len() - n,
{
    if n < s.len() {
        lemma_occurrences_prefix(s, n + 1, x);
        assert(s.take(n + 1).drop_last() =~= s.take(n));
    } else {
        assert(s.take(n) =~= s);
    }
}

} // verus!
