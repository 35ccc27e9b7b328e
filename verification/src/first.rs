//! The first item of a sequence that passes a test.
use vstd::prelude::*;

verus! {

/// Item `i` passes the test and none before it does.
pub open spec fn is_first<A>(s: Seq<A>, test: spec_fn(A) -> bool, i: int) -> bool {
    &&& 0 <= i < s.len()
    &&& test(s[i])
    &&& forall|j: int| 0 <= j < i ==> !test(#[trigger] s[j])
}

/// The place of the first item that passes the test.
pub open spec fn first_index<A>(s: Seq<A>, test: spec_fn(A) -> bool) -> Option<int> {
    if exists|i: int| is_first(s, test, i) {
        Some(choose|i: int| is_first(s, test, i))
    } else {
        None
    }
}

/// The first item that passes the test.
pub open spec fn first_item<A>(s: Seq<A>, test: spec_fn(A) -> bool) -> Option<A> {
    match first_index(s, test) {
        Some(i) => Some(s[i]),
        None => None,
    }
}

/// There is one first item at most.
pub proof fn lemma_first_is<A>(s: Seq<A>, test: spec_fn(A) -> bool, i: int)
    requires
        is_first(s, test, i),
    ensures
        first_index(s, test) == Some(i),
        first_item(s, test) == Some(s[i]),
{
    let k = choose|k: int| is_first(s, test, k);
    assert(is_first(s, test, k));
    if k < i {
        assert(!test(s[k]));
    }
    if i < k {
        assert(!test(s[i]));
    }
}

/// Where no item passes, there is no first one.
pub proof fn lemma_first_none<A>(s: Seq<A>, test: spec_fn(A) -> bool)
    requires
        forall|i: int| 0 <= i < s.len() ==> !test(#[trigger] s[i]),
    ensures
        first_index(s, test) is None,
        first_item(s, test) is None,
{
}

/// Where some item passes, there is a first one, and it passes.
pub proof fn lemma_first_some<A>(s: Seq<A>, test: spec_fn(A) -> bool, i: int)
    requires
        0 <= i < s.len(),
        test(s[i]),
    ensures
        first_index(s, test) is Some,
        is_first(s, test, first_index(s, test)->0),
    decreases i,
{
    if forall|j: int| 0 <= j < i ==> !test(#[trigger] s[j]) {
        lemma_first_is(s, test, i);
    } else {
        let j = choose|j: int| 0 <= j < i && test(#[trigger] s[j]);
        lemma_first_some(s, test, j);
    }
}

} // verus!
