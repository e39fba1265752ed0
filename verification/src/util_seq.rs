//! Small sequence lemmas shared across modules.

use vstd::prelude::*;
use vstd::multiset::Multiset;

verus! {

/// Filtering after a push keeps the element exactly when the predicate holds.
pub proof fn lemma_filter_push<A>(s: Seq<A>, e: A, pred: spec_fn(A) -> bool)
    ensures
        s.push(e).filter(pred) == (if pred(e) {
            s.filter(pred).push(e)
        } else {
            s.filter(pred)
        }),
{
    reveal(Seq::filter);
    assert(s.push(e).drop_last() =~= s);
    assert(s.push(e).last() == e);
}

/// Moving one occurrence of `x` from `b` to `a` keeps the combined multiset.
pub proof fn lemma_ms_transfer<A>(a: Multiset<A>, b: Multiset<A>, x: A)
    requires
        b.count(x) >= 1,
    ensures
        a.insert(x).add(b.remove(x)) == a.add(b),
{
    broadcast use vstd::multiset::group_multiset_axioms;

    assert(a.insert(x).add(b.remove(x)) =~= a.add(b));
}

/// A prefix of a sequence holds no element more often than the whole.
pub proof fn lemma_take_multiset_le<A>(s: Seq<A>, k: int)
    requires
        0 <= k <= s.len(),
    ensures
        forall|e: A|
            #[trigger] s.subrange(0, k).to_multiset().count(e) <= s.to_multiset().count(e),
{
    broadcast use vstd::multiset::group_multiset_axioms;

    let front = s.subrange(0, k);
    let back = s.subrange(k, s.len() as int);
    assert(s =~= front + back);
    vstd::seq_lib::lemma_multiset_commutative(front, back);
}

} // verus!
