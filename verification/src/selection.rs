//! Choosing the smallest of many: a bounded page kept in order while candidates arrive.

use vstd::prelude::*;

use crate::order::{ascends, is_page};

verus! {

/// Orders pairs by their first and then by their second component.
pub open spec fn pair_rank() -> spec_fn((u64, u128)) -> int {
    |p: (u64, u128)| p.0 * 0x1_0000_0000_0000_0000_0000_0000_0000_0000 + p.1
}

fn pair_precedes(a: (u64, u128), b: (u64, u128)) -> (r: bool)
    ensures
        r == (pair_rank()(a) < pair_rank()(b)),
{
    a.0 < b.0 || (a.0 == b.0 && a.1 < b.1)
}

/// Putting the item in its place keeps the order and loses nothing.
proof fn lemma_grown(
    start: Seq<(u64, u128)>,
    at: int,
    item: (u64, u128),
    before: spec_fn((u64, u128)) -> bool,
    after: spec_fn((u64, u128)) -> bool,
)
    requires
        0 <= at <= start.len(),
        ascends(start, pair_rank()),
        forall|i: int| 0 <= i < start.len() ==> before(#[trigger] start[i]),
        forall|i: int| 0 <= i < at ==> pair_rank()(#[trigger] start[i]) < pair_rank()(item),
        forall|i: int|
            at <= i < start.len() ==> pair_rank()(item) < pair_rank()(#[trigger] start[i]),
        forall|p: (u64, u128)| #[trigger] after(p) == (before(p) || p == item),
    ensures
        ascends(start.insert(at, item), pair_rank()),
        forall|i: int|
            0 <= i < start.insert(at, item).len() ==> after(#[trigger] start.insert(at, item)[i]),
        forall|k: (u64, u128)|
            start.contains(k) || k == item ==> #[trigger] start.insert(at, item).contains(k),
{
    let rank = pair_rank();
    let grown = start.insert(at, item);
    assert forall|i: int, j: int| 0 <= i < j < grown.len() implies rank(#[trigger] grown[i])
        < rank(#[trigger] grown[j]) by {
        let a = if i < at { i } else { i - 1 };
        let b = if j < at { j } else { j - 1 };
        if i != at {
            assert(grown[i] == start[a]);
        }
        if j != at {
            assert(grown[j] == start[b]);
        }
    }
    assert forall|i: int| 0 <= i < grown.len() implies after(#[trigger] grown[i]) by {
        if i != at {
            let a = if i < at { i } else { i - 1 };
            assert(grown[i] == start[a]);
            assert(before(start[a]));
        }
    }
    assert forall|k: (u64, u128)| start.contains(k) || k == item implies #[trigger] grown.contains(
        k,
    ) by {
        if k == item {
            assert(grown[at] == item);
        } else {
            let i = start.index_of(k);
            assert(start[i] == k);
            if i < at {
                assert(grown[i] == k);
            } else {
                assert(grown[i + 1] == k);
            }
        }
    }
}

/// The page stays the page of the smallest when its last element makes room for the item.
proof fn lemma_kept(
    start: Seq<(u64, u128)>,
    at: int,
    item: (u64, u128),
    before: spec_fn((u64, u128)) -> bool,
    after: spec_fn((u64, u128)) -> bool,
    limit: nat,
)
    requires
        0 <= at <= start.len(),
        is_page(start, before, pair_rank(), limit),
        at < limit,
        forall|i: int| 0 <= i < at ==> pair_rank()(#[trigger] start[i]) < pair_rank()(item),
        forall|i: int|
            at <= i < start.len() ==> pair_rank()(item) < pair_rank()(#[trigger] start[i]),
        forall|p: (u64, u128)| #[trigger] after(p) == (before(p) || p == item),
    ensures
        start.len() < limit ==> is_page(start.insert(at, item), after, pair_rank(), limit),
        start.len() == limit ==> is_page(
            start.insert(at, item).take(limit as int),
            after,
            pair_rank(),
            limit,
        ),
{
    let rank = pair_rank();
    let grown = start.insert(at, item);
    lemma_grown(start, at, item, before, after);
    if start.len() < limit {
        assert forall|k: (u64, u128)| #[trigger] after(k) && !grown.contains(k) implies grown.len()
            == limit && (forall|i: int|
            0 <= i < grown.len() ==> rank(#[trigger] grown[i]) < rank(k)) by {
            assert(before(k));
            assert(!start.contains(k));
        }
    } else {
        let n = limit as int;
        let kept = grown.take(n);
        assert forall|i: int| 0 <= i < n implies after(#[trigger] kept[i]) by {
            assert(kept[i] == grown[i]);
        }
        assert(ascends(kept, rank));
        assert forall|k: (u64, u128)| #[trigger] after(k) && !kept.contains(k) implies kept.len()
            == limit && (forall|i: int|
            0 <= i < kept.len() ==> rank(#[trigger] kept[i]) < rank(k)) by {
            assert forall|i: int| 0 <= i < kept.len() implies rank(#[trigger] kept[i]) < rank(
                k,
            ) by {
                assert(kept[i] == grown[i]);
                assert(rank(grown[i]) < rank(grown[n]));
                if grown.contains(k) {
                    let j = grown.index_of(k);
                    assert(grown[j] == k);
                    if j < n {
                        assert(kept[j] == k);
                    }
                } else {
                    assert(before(k));
                    assert(!start.contains(k));
                    assert(grown[n] == start[n - 1]);
                    assert(rank(start[n - 1]) < rank(k));
                }
            }
        }
    }
}

/// Adds a candidate to a page that holds the smallest candidates seen so far.
pub(crate) fn insert_bounded(
    page: &mut Vec<(u64, u128)>,
    item: (u64, u128),
    limit: usize,
    Ghost(before): Ghost<spec_fn((u64, u128)) -> bool>,
    Ghost(after): Ghost<spec_fn((u64, u128)) -> bool>,
)
    requires
        limit >= 1,
        is_page(old(page)@, before, pair_rank(), limit as nat),
        !before(item),
        forall|p: (u64, u128)| #[trigger] after(p) == (before(p) || p == item),
    ensures
        is_page(final(page)@, after, pair_rank(), limit as nat),
{
    let ghost start = page@;
    let ghost rank = pair_rank();
    let mut at: usize = page.len();
    while at > 0 && pair_precedes(item, page[at - 1])
        invariant
            at <= page@.len(),
            page@ == start,
            rank == pair_rank(),
            forall|i: int| at <= i < page@.len() ==> rank(item) < rank(#[trigger] page@[i]),
        ensures
            at <= page@.len(),
            page@ == start,
            forall|i: int| at <= i < page@.len() ==> rank(item) < rank(#[trigger] page@[i]),
            at > 0 ==> rank(item) >= rank(page@[at - 1]),
        decreases at,
    {
        at = at - 1;
    }
    proof {
        assert forall|i: int| 0 <= i < at implies rank(#[trigger] start[i]) < rank(item) by {
            assert(before(start[i]));
            assert(before(start[at - 1]));
            if i < at - 1 {
                assert(rank(start[i]) < rank(start[at - 1]));
            }
            assert(start[at - 1] != item);
        }
    }
    if at >= limit {
        proof {
            assert forall|i: int| 0 <= i < page@.len() implies after(#[trigger] page@[i]) by {
                assert(before(page@[i]));
            }
            assert forall|k: (u64, u128)| #[trigger] after(k) && !page@.contains(k) implies
                page@.len() == limit && (forall|i: int|
                0 <= i < page@.len() ==> rank(#[trigger] page@[i]) < rank(k)) by {
                if k != item {
                    assert(before(k));
                }
            }
        }
        return;
    }
    proof {
        lemma_kept(start, at as int, item, before, after, limit as nat);
    }
    page.insert(at, item);
    if page.len() > limit {
        page.pop();
        assert(page@ =~= start.insert(at as int, item).take(limit as int));
    }
}

} // verus!
