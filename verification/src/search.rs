//! First-match search over sequences: the order of a list is its priority.
use vstd::prelude::*;

verus! {

/// The views of the elements of `s`, in order.
pub open spec fn views<T: View>(s: Seq<T>) -> Seq<T::V> {
    Seq::new(s.len(), |i: int| s[i]@)
}

/// The views of a sequence that grew by one element.
pub proof fn lemma_views_push<T: View>(s: Seq<T>, x: T)
    ensures
        views(s.push(x)) == views(s).push(x@),
        views(Seq::<T>::empty()) == Seq::<T::V>::empty(),
{
    assert(views(s.push(x)) =~= views(s).push(x@));
    assert(views(Seq::<T>::empty()) =~= Seq::<T::V>::empty());
}

/// The least index at or after `from` whose element satisfies `p`.
pub open spec fn first_index<T>(s: Seq<T>, p: spec_fn(T) -> bool, from: int) -> Option<int>
    decreases s.len() - from,
{
    if from < 0 || from >= s.len() {
        None
    } else if p(s[from]) {
        Some(from)
    } else {
        first_index(s, p, from + 1)
    }
}

/// `first_index` finds an element that satisfies `p`, and none before it does.
pub proof fn lemma_first_index_least<T>(s: Seq<T>, p: spec_fn(T) -> bool, from: int)
    requires
        0 <= from,
    ensures
        match first_index(s, p, from) {
            Some(i) => from <= i < s.len() && p(s[i]) && forall|j: int| from <= j < i ==> !p(s[j]),
            None => forall|j: int| from <= j < s.len() ==> !p(s[j]),
        },
    decreases s.len() - from,
{
    if from < s.len() && !p(s[from]) {
        lemma_first_index_least(s, p, from + 1);
    }
}

/// Where some element at `at` satisfies `p`, the search succeeds no later than `at`.
pub proof fn lemma_first_index_found<T>(s: Seq<T>, p: spec_fn(T) -> bool, from: int, at: int)
    requires
        0 <= from <= at < s.len(),
        p(s[at]),
    ensures
        first_index(s, p, from) is Some,
        first_index(s, p, from)->0 <= at,
{
    lemma_first_index_least(s, p, from);
}

} // verus!
