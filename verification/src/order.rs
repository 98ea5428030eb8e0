//! Ordered listings: the elements that satisfy a condition, in ascending rank.

use vstd::prelude::*;

verus! {

/// Ranks ascend strictly along the sequence.
pub open spec fn ascends<K>(s: Seq<K>, rank: spec_fn(K) -> int) -> bool {
    forall|i: int, j: int|
        0 <= i < j < s.len() ==> rank(#[trigger] s[i]) < rank(#[trigger] s[j])
}

/// `page` holds the first `limit` eligible keys in ascending rank, or all of them if there are
/// fewer.
pub open spec fn is_page<K>(
    page: Seq<K>,
    eligible: spec_fn(K) -> bool,
    rank: spec_fn(K) -> int,
    limit: nat,
) -> bool {
    &&& page.len() <= limit
    &&& ascends(page, rank)
    &&& forall|i: int| 0 <= i < page.len() ==> eligible(#[trigger] page[i])
    &&& forall|k: K| #[trigger]
        eligible(k) && !page.contains(k) ==> page.len() == limit && (forall|i: int|
            0 <= i < page.len() ==> rank(#[trigger] page[i]) < rank(k))
}

/// `all` holds every eligible key, in ascending rank.
pub open spec fn is_listing<K>(
    all: Seq<K>,
    eligible: spec_fn(K) -> bool,
    rank: spec_fn(K) -> int,
) -> bool {
    &&& ascends(all, rank)
    &&& forall|i: int| 0 <= i < all.len() ==> eligible(#[trigger] all[i])
    &&& forall|k: K| #[trigger] eligible(k) ==> all.contains(k)
}

/// No two eligible keys share a rank.
pub open spec fn separates<K>(eligible: spec_fn(K) -> bool, rank: spec_fn(K) -> int) -> bool {
    forall|a: K, b: K| #[trigger]
        eligible(a) && #[trigger] eligible(b) && rank(a) == rank(b) ==> a == b
}

/// The page of the given size.
pub open spec fn first_page<K>(
    eligible: spec_fn(K) -> bool,
    rank: spec_fn(K) -> int,
    limit: nat,
) -> Seq<K> {
    choose|page: Seq<K>| is_page(page, eligible, rank, limit)
}

/// The complete listing.
pub open spec fn listing<K>(eligible: spec_fn(K) -> bool, rank: spec_fn(K) -> int) -> Seq<K> {
    choose|all: Seq<K>| is_listing(all, eligible, rank)
}

proof fn lemma_pages_agree<K>(
    a: Seq<K>,
    b: Seq<K>,
    eligible: spec_fn(K) -> bool,
    rank: spec_fn(K) -> int,
    limit: nat,
    n: int,
)
    requires
        is_page(a, eligible, rank, limit),
        is_page(b, eligible, rank, limit),
        separates(eligible, rank),
        0 <= n <= a.len(),
        n <= b.len(),
    ensures
        forall|i: int| 0 <= i < n ==> a[i] == b[i],
    decreases n,
{
    if n > 0 {
        let m = n - 1;
        lemma_pages_agree(a, b, eligible, rank, limit, m);
        assert(eligible(a[m]) && eligible(b[m]));
        if rank(a[m]) < rank(b[m]) {
            if b.contains(a[m]) {
                let j = choose|j: int| 0 <= j < b.len() && b[j] == a[m];
                assert(j < m);
                assert(a[j] == b[j]);
                assert(rank(a[j]) < rank(a[m]));
            }
            assert(false);
        }
        if rank(b[m]) < rank(a[m]) {
            if a.contains(b[m]) {
                let j = choose|j: int| 0 <= j < a.len() && a[j] == b[m];
                assert(j < m);
                assert(a[j] == b[j]);
                assert(rank(b[j]) < rank(b[m]));
            }
            assert(false);
        }
    }
}

/// A page is determined by what is eligible, the order and the limit.
pub proof fn lemma_page_unique<K>(
    a: Seq<K>,
    b: Seq<K>,
    eligible: spec_fn(K) -> bool,
    rank: spec_fn(K) -> int,
    limit: nat,
)
    requires
        is_page(a, eligible, rank, limit),
        is_page(b, eligible, rank, limit),
        separates(eligible, rank),
    ensures
        a == b,
{
    let n: int = if a.len() <= b.len() { a.len() as int } else { b.len() as int };
    lemma_pages_agree(a, b, eligible, rank, limit, n);
    if a.len() < b.len() {
        let k = b[a.len() as int];
        assert(eligible(k));
        if a.contains(k) {
            let j = choose|j: int| 0 <= j < a.len() && a[j] == k;
            assert(rank(b[j]) < rank(b[a.len() as int]));
        }
        assert(false);
    }
    if b.len() < a.len() {
        let k = a[b.len() as int];
        assert(eligible(k));
        if b.contains(k) {
            let j = choose|j: int| 0 <= j < b.len() && b[j] == k;
            assert(rank(a[j]) < rank(a[b.len() as int]));
        }
        assert(false);
    }
    assert(a =~= b);
}

/// A page depends on what is eligible, not on how that is said.
pub proof fn lemma_page_congruent<K>(
    page: Seq<K>,
    a: spec_fn(K) -> bool,
    b: spec_fn(K) -> bool,
    rank: spec_fn(K) -> int,
    limit: nat,
)
    requires
        is_page(page, a, rank, limit),
        forall|k: K| #[trigger] a(k) == b(k),
    ensures
        is_page(page, b, rank, limit),
{
    assert forall|i: int| 0 <= i < page.len() implies b(#[trigger] page[i]) by {
        assert(a(page[i]));
    }
    assert forall|k: K| #[trigger] b(k) && !page.contains(k) implies page.len() == limit && (
    forall|i: int| 0 <= i < page.len() ==> rank(#[trigger] page[i]) < rank(k)) by {
        assert(a(k));
    }
}

/// A page that was found is the page.
pub proof fn lemma_is_first_page<K>(
    page: Seq<K>,
    eligible: spec_fn(K) -> bool,
    rank: spec_fn(K) -> int,
    limit: nat,
)
    requires
        is_page(page, eligible, rank, limit),
        separates(eligible, rank),
    ensures
        page == first_page(eligible, rank, limit),
{
    lemma_page_unique(page, first_page(eligible, rank, limit), eligible, rank, limit);
}

/// A listing that was found is the listing.
pub proof fn lemma_is_listing<K>(
    all: Seq<K>,
    eligible: spec_fn(K) -> bool,
    rank: spec_fn(K) -> int,
)
    requires
        is_listing(all, eligible, rank),
        separates(eligible, rank),
    ensures
        all == listing(eligible, rank),
{
    let other = listing(eligible, rank);
    assert(is_listing(other, eligible, rank));
    let limit: nat = if all.len() <= other.len() { other.len() } else { all.len() };
    lemma_page_unique(all, other, eligible, rank, limit);
}

} // verus!
