//! Stable sorting by an order that need not tell all elements apart.

use vstd::prelude::*;

verus! {

/// A list with one more element, behind those that are at most as large.
pub open spec fn placed<A>(sorted: Seq<A>, x: A, at_most: spec_fn(A, A) -> bool) -> Seq<A>
    decreases sorted.len(),
{
    if sorted.len() == 0 || at_most(sorted.last(), x) {
        sorted.push(x)
    } else {
        placed(sorted.drop_last(), x, at_most).push(sorted.last())
    }
}

/// The elements in ascending order, equal ones as they came.
pub open spec fn ascending<A>(elements: Seq<A>, at_most: spec_fn(A, A) -> bool) -> Seq<A>
    decreases elements.len(),
{
    if elements.len() == 0 {
        elements
    } else {
        placed(ascending(elements.drop_last(), at_most), elements.last(), at_most)
    }
}

/// Each element is at most the next ones.
pub open spec fn is_ascending<A>(elements: Seq<A>, at_most: spec_fn(A, A) -> bool) -> bool {
    forall|i: int, j: int|
        0 <= i < j < elements.len() ==> at_most(#[trigger] elements[i], #[trigger] elements[j])
}

/// Any two valid elements are comparable, and the order is transitive among them.
pub open spec fn is_order<A>(at_most: spec_fn(A, A) -> bool, valid: spec_fn(A) -> bool) -> bool {
    &&& forall|a: A, b: A|
        valid(a) && valid(b) ==> (#[trigger] at_most(a, b) || at_most(b, a))
    &&& forall|a: A, b: A, c: A|
        valid(a) && valid(b) && valid(c) && #[trigger] at_most(a, b) && #[trigger] at_most(b, c)
            ==> at_most(a, c)
}

/// Every element is valid.
pub open spec fn all_valid<A>(elements: Seq<A>, valid: spec_fn(A) -> bool) -> bool {
    forall|i: int| 0 <= i < elements.len() ==> valid(#[trigger] elements[i])
}

proof fn lemma_placed_len<A>(sorted: Seq<A>, x: A, at_most: spec_fn(A, A) -> bool)
    ensures
        placed(sorted, x, at_most).len() == sorted.len() + 1,
        placed(sorted, x, at_most).to_multiset() =~= sorted.to_multiset().insert(x),
        forall|i: int|
            0 <= i <= sorted.len() ==> (#[trigger] placed(sorted, x, at_most)[i] == x
                || sorted.contains(placed(sorted, x, at_most)[i])),
    decreases sorted.len(),
{
    broadcast use vstd::seq_lib::group_to_multiset_ensures;

    let more = placed(sorted, x, at_most);
    if sorted.len() == 0 || at_most(sorted.last(), x) {
        assert forall|i: int| 0 <= i <= sorted.len() implies (#[trigger] more[i] == x
            || sorted.contains(more[i])) by {
            if i < sorted.len() {
                assert(sorted[i] == more[i]);
            }
        }
    } else {
        let front = sorted.drop_last();
        lemma_placed_len(front, x, at_most);
        let inner = placed(front, x, at_most);
        assert(sorted =~= front.push(sorted.last()));
        assert forall|i: int| 0 <= i <= sorted.len() implies (#[trigger] more[i] == x
            || sorted.contains(more[i])) by {
            if i < inner.len() {
                assert(inner[i] == more[i]);
                if inner[i] != x {
                    let k = front.index_of(inner[i]);
                    assert(sorted[k] == inner[i]);
                }
            } else {
                assert(sorted[sorted.len() - 1] == more[i]);
            }
        }
    }
}

proof fn lemma_placed_ascending<A>(
    sorted: Seq<A>,
    x: A,
    at_most: spec_fn(A, A) -> bool,
    valid: spec_fn(A) -> bool,
)
    requires
        is_order(at_most, valid),
        is_ascending(sorted, at_most),
        all_valid(sorted, valid),
        valid(x),
    ensures
        is_ascending(placed(sorted, x, at_most), at_most),
        all_valid(placed(sorted, x, at_most), valid),
    decreases sorted.len(),
{
    let more = placed(sorted, x, at_most);
    lemma_placed_len(sorted, x, at_most);
    assert forall|i: int| 0 <= i < more.len() implies valid(#[trigger] more[i]) by {
        assert(more[i] == x || sorted.contains(more[i]));
    }
    if sorted.len() == 0 {
    } else if at_most(sorted.last(), x) {
        assert forall|i: int, j: int| 0 <= i < j < more.len() implies at_most(
            #[trigger] more[i],
            #[trigger] more[j],
        ) by {
            if j == sorted.len() && i < sorted.len() - 1 {
                assert(at_most(sorted[i], sorted.last()));
            }
        }
    } else {
        let front = sorted.drop_last();
        assert forall|i: int, j: int| 0 <= i < j < front.len() implies at_most(
            #[trigger] front[i],
            #[trigger] front[j],
        ) by {
            assert(at_most(sorted[i], sorted[j]));
        }
        assert forall|i: int| 0 <= i < front.len() implies valid(#[trigger] front[i]) by {
            assert(front[i] == sorted[i]);
        }
        lemma_placed_ascending(front, x, at_most, valid);
        lemma_placed_len(front, x, at_most);
        let inner = placed(front, x, at_most);
        assert(at_most(x, sorted.last()));
        assert forall|i: int, j: int| 0 <= i < j < more.len() implies at_most(
            #[trigger] more[i],
            #[trigger] more[j],
        ) by {
            if j == inner.len() {
                assert(inner[i] == x || front.contains(inner[i]));
                if inner[i] != x {
                    let k = front.index_of(inner[i]);
                    assert(at_most(sorted[k], sorted.last()));
                }
            } else {
                assert(more[i] == inner[i]);
                assert(more[j] == inner[j]);
            }
        }
    }
}

/// Sorting keeps the elements.
pub proof fn ascending_keeps_the_elements<A>(elements: Seq<A>, at_most: spec_fn(A, A) -> bool)
    ensures
        ascending(elements, at_most).len() == elements.len(),
        ascending(elements, at_most).to_multiset() =~= elements.to_multiset(),
    decreases elements.len(),
{
    broadcast use vstd::seq_lib::group_to_multiset_ensures;

    if elements.len() > 0 {
        let front = elements.drop_last();
        ascending_keeps_the_elements(front, at_most);
        lemma_placed_len(ascending(front, at_most), elements.last(), at_most);
        assert(elements =~= front.push(elements.last()));
    }
}

/// Sorting by an order puts each element before the larger ones.
pub proof fn ascending_sorts<A>(
    elements: Seq<A>,
    at_most: spec_fn(A, A) -> bool,
    valid: spec_fn(A) -> bool,
)
    requires
        is_order(at_most, valid),
        all_valid(elements, valid),
    ensures
        is_ascending(ascending(elements, at_most), at_most),
        all_valid(ascending(elements, at_most), valid),
    decreases elements.len(),
{
    if elements.len() > 0 {
        let front = elements.drop_last();
        assert forall|i: int| 0 <= i < front.len() implies valid(#[trigger] front[i]) by {
            assert(front[i] == elements[i]);
        }
        ascending_sorts(front, at_most, valid);
        lemma_placed_ascending(ascending(front, at_most), elements.last(), at_most, valid);
    }
}

/// Where an element is placed.
pub proof fn lemma_placed_at<A>(sorted: Seq<A>, x: A, at_most: spec_fn(A, A) -> bool, at: int)
    requires
        0 <= at <= sorted.len(),
        at > 0 ==> at_most(sorted[at - 1], x),
        forall|i: int| at <= i < sorted.len() ==> !at_most(#[trigger] sorted[i], x),
    ensures
        placed(sorted, x, at_most) == sorted.insert(at, x),
    decreases sorted.len(),
{
    if at == sorted.len() {
        assert(sorted.insert(at, x) =~= sorted.push(x));
    } else {
        let front = sorted.drop_last();
        assert(!at_most(sorted[sorted.len() - 1], x));
        assert forall|i: int| at <= i < front.len() implies !at_most(#[trigger] front[i], x) by {
            assert(front[i] == sorted[i]);
        }
        lemma_placed_at(front, x, at_most, at);
        assert(sorted.insert(at, x) =~= front.insert(at, x).push(sorted.last()));
    }
}

} // verus!
