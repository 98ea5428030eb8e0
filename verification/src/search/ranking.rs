//! Verification of candidates against the query, and the order of the hits.

use vstd::prelude::*;

use crate::collate::{
    compare_texts, lemma_text_order_equal, lemma_text_order_transitive, text_order,
};
use crate::search::normalize::{
    is_run, normalize_search_text, normalized, tokenize, tokens, tokens_are_the_maximal_runs,
};
use crate::text::{chars_of, same_text, texts};

verus! {

/// A record of the searched catalog.
#[derive(Clone, Debug, PartialEq, Eq)]
pub struct CatalogRecord {
    /// Position in the catalog.
    pub ordinal: u64,
    /// File name.
    pub name: String,
    /// Path.
    pub path: String,
    /// Extension.
    pub extension: String,
    /// Size in bytes.
    pub size: u64,
    /// Time of the last change.
    pub modified_at_unix_ms: i64,
}

/// How a record matches, best first.
#[derive(Clone, Copy, Debug, PartialEq, Eq, PartialOrd, Ord, Structural)]
pub enum MatchClass {
    /// The name is the query.
    ExactName,
    /// The name starts with the query.
    PrefixName,
    /// A token of the name is the query.
    TokenName,
    /// The name contains the query.
    SubstringName,
    /// The path contains the query.
    Path,
}

/// A record that matches.
#[derive(Clone, Debug, PartialEq, Eq)]
pub struct RankedHit {
    /// Position in the catalog.
    pub ordinal: u64,
    /// File name.
    pub name: String,
    /// Path.
    pub path: String,
    /// How it matches.
    pub match_class: MatchClass,
}

/// A hit as a mathematical value.
pub struct HitModel {
    pub ordinal: u64,
    pub name: Seq<char>,
    pub path: Seq<char>,
    pub match_class: MatchClass,
}

impl View for RankedHit {
    type V = HitModel;

    open spec fn view(&self) -> HitModel {
        HitModel {
            ordinal: self.ordinal,
            name: self.name@,
            path: self.path@,
            match_class: self.match_class,
        }
    }
}

/// The needle stands in the text at `i`.
pub open spec fn occurs_at(text: Seq<char>, needle: Seq<char>, i: int) -> bool {
    0 <= i && i + needle.len() <= text.len() && text.subrange(i, i + needle.len()) == needle
}

/// The text contains the needle.
pub open spec fn occurs(text: Seq<char>, needle: Seq<char>) -> bool {
    exists|i: int| #[trigger] occurs_at(text, needle, i)
}

/// How a normalized name and path match a normalized query; not at all if neither contains it.
pub open spec fn class_of(name: Seq<char>, path: Seq<char>, query: Seq<char>) -> Option<
    MatchClass,
> {
    if name == query {
        Some(MatchClass::ExactName)
    } else if occurs_at(name, query, 0) {
        Some(MatchClass::PrefixName)
    } else if tokens(name).contains(query) {
        Some(MatchClass::TokenName)
    } else if occurs(name, query) {
        Some(MatchClass::SubstringName)
    } else if occurs(path, query) {
        Some(MatchClass::Path)
    } else {
        None
    }
}

fn stands_at(text: &Vec<char>, needle: &Vec<char>, at: usize) -> (r: bool)
    requires
        at + needle@.len() <= text@.len(),
    ensures
        r == occurs_at(text@, needle@, at as int),
{
    let mut k: usize = 0;
    assert(text.len() <= usize::MAX);
    while k < needle.len()
        invariant
            at + needle@.len() <= text@.len(),
            text@.len() <= usize::MAX,
            k <= needle@.len(),
            forall|x: int| 0 <= x < k ==> #[trigger] needle@[x] == text@[at + x],
        decreases needle@.len() - k,
    {
        if text[at + k] != needle[k] {
            proof {
                let piece = text@.subrange(at as int, at + needle@.len());
                assert(piece[k as int] == text@[at + k]);
            }
            return false;
        }
        k = k + 1;
    }
    assert(text@.subrange(at as int, at + needle@.len()) =~= needle@);
    true
}

/// Whether a text contains another.
pub fn contains_text(text: &str, needle: &str) -> (r: bool)
    ensures
        r == occurs(text@, needle@),
{
    let haystack = chars_of(text);
    let wanted = chars_of(needle);
    if wanted.len() > haystack.len() {
        return false;
    }
    let last: usize = haystack.len() - wanted.len();
    let mut i: usize = 0;
    while i <= last
        invariant
            last + wanted@.len() == haystack@.len(),
            haystack@ == text@,
            wanted@ == needle@,
            i <= last + 1,
            forall|x: int| 0 <= x < i ==> !#[trigger] occurs_at(text@, needle@, x),
        decreases last + 1 - i,
    {
        if stands_at(&haystack, &wanted, i) {
            assert(occurs_at(text@, needle@, i as int));
            return true;
        }
        if i == last {
            assert forall|x: int| !#[trigger] occurs_at(text@, needle@, x) by {
            }
            return false;
        }
        i = i + 1;
    }
    false
}

/// Whether a text starts with another.
pub fn starts_with_text(text: &str, needle: &str) -> (r: bool)
    ensures
        r == occurs_at(text@, needle@, 0),
{
    let haystack = chars_of(text);
    let wanted = chars_of(needle);
    if wanted.len() > haystack.len() {
        return false;
    }
    stands_at(&haystack, &wanted, 0)
}

fn list_contains(values: &Vec<String>, wanted: &str) -> (r: bool)
    ensures
        r == texts(values@).contains(wanted@),
{
    let mut i: usize = 0;
    while i < values.len()
        invariant
            i <= values@.len(),
            forall|x: int| 0 <= x < i ==> #[trigger] texts(values@)[x] != wanted@,
        decreases values@.len() - i,
    {
        if same_text(values[i].as_str(), wanted) {
            assert(texts(values@)[i as int] == wanted@);
            return true;
        }
        i = i + 1;
    }
    false
}

/// Says how a normalized name and path match a normalized query.
pub fn classify_match(normalized_name: &str, normalized_path: &str, normalized_query: &str) -> (r:
    Option<MatchClass>)
    ensures
        r == class_of(normalized_name@, normalized_path@, normalized_query@),
{
    if same_text(normalized_name, normalized_query) {
        Some(MatchClass::ExactName)
    } else if starts_with_text(normalized_name, normalized_query) {
        Some(MatchClass::PrefixName)
    } else if list_contains(&tokenize(normalized_name), normalized_query) {
        Some(MatchClass::TokenName)
    } else if contains_text(normalized_name, normalized_query) {
        Some(MatchClass::SubstringName)
    } else if contains_text(normalized_path, normalized_query) {
        Some(MatchClass::Path)
    } else {
        None
    }
}

/// Verification is exact: a record is a hit if and only if its name or its path contains the
/// query, and it is a hit by path alone if and only if the name does not contain it.
pub proof fn hits_are_exactly_the_substring_matches(
    name: Seq<char>,
    path: Seq<char>,
    query: Seq<char>,
)
    ensures
        class_of(name, path, query) is Some <==> occurs(name, query) || occurs(path, query),
        class_of(name, path, query) == Some(MatchClass::Path) <==> !occurs(name, query) && occurs(
            path,
            query,
        ),
{
    if name == query {
        assert(name.subrange(0, name.len() as int) =~= name);
        assert(occurs_at(name, query, 0));
    } else if tokens(name).contains(query) {
        tokens_are_the_maximal_runs(name, query);
        let (i, j) = choose|i: int, j: int| #[trigger]
            is_run(name, i, j) && name.subrange(i, j) == query;
        assert(occurs_at(name, query, i));
    }
}

/// What the order of a hit depends on.
pub struct SortKey {
    pub match_class: MatchClass,
    pub name: Seq<char>,
    pub path: Seq<char>,
    pub ordinal: u64,
}

/// The place of a class, best first.
pub open spec fn class_place(class: MatchClass) -> int {
    match class {
        MatchClass::ExactName => 0,
        MatchClass::PrefixName => 1,
        MatchClass::TokenName => 2,
        MatchClass::SubstringName => 3,
        MatchClass::Path => 4,
    }
}

/// The order of two hits: by class, then by normalized name, then by normalized path, then by
/// position in the catalog.
pub open spec fn key_order(a: SortKey, b: SortKey) -> int {
    if a.match_class != b.match_class {
        class_place(a.match_class) - class_place(b.match_class)
    } else if text_order(a.name, b.name) != 0 {
        text_order(a.name, b.name)
    } else if text_order(a.path, b.path) != 0 {
        text_order(a.path, b.path)
    } else {
        a.ordinal - b.ordinal
    }
}

proof fn lemma_key_order(a: SortKey, b: SortKey)
    ensures
        key_order(a, b) == -key_order(b, a),
{
    lemma_text_order_equal(a.name, b.name);
    lemma_text_order_equal(a.path, b.path);
}

proof fn lemma_key_order_transitive(a: SortKey, b: SortKey, c: SortKey)
    requires
        key_order(a, b) <= 0,
        key_order(b, c) <= 0,
    ensures
        key_order(a, c) <= 0,
        key_order(a, b) < 0 || key_order(b, c) < 0 ==> key_order(a, c) < 0,
{
    lemma_text_order_equal(a.name, b.name);
    lemma_text_order_equal(b.name, c.name);
    lemma_text_order_equal(a.name, c.name);
    lemma_text_order_equal(a.path, b.path);
    lemma_text_order_equal(b.path, c.path);
    lemma_text_order_equal(a.path, c.path);
    if text_order(a.name, b.name) <= 0 && text_order(b.name, c.name) <= 0 {
        lemma_text_order_transitive(a.name, b.name, c.name);
    }
    if text_order(a.path, b.path) <= 0 && text_order(b.path, c.path) <= 0 {
        lemma_text_order_transitive(a.path, b.path, c.path);
    }
}

/// A hit together with the normalized texts that order it.
pub struct RankEntry {
    /// Normalized name.
    pub name: String,
    /// Normalized path.
    pub path: String,
    /// The hit.
    pub hit: RankedHit,
}

/// An entry as a mathematical value.
pub struct EntryModel {
    pub key: SortKey,
    pub hit: HitModel,
}

impl View for RankEntry {
    type V = EntryModel;

    open spec fn view(&self) -> EntryModel {
        EntryModel {
            key: SortKey {
                match_class: self.hit.match_class,
                name: self.name@,
                path: self.path@,
                ordinal: self.hit.ordinal,
            },
            hit: self.hit@,
        }
    }
}

/// The views of several entries.
pub open spec fn entry_models(entries: Seq<RankEntry>) -> Seq<EntryModel> {
    Seq::new(entries.len(), |i: int| entries[i]@)
}

/// The entry at `a` comes before the entry at `b`: by key, and among equal keys as they came.
pub open spec fn comes_first(entries: Seq<EntryModel>, a: int, b: int) -> bool {
    key_order(entries[a].key, entries[b].key) < 0 || (key_order(entries[a].key, entries[b].key)
        == 0 && a < b)
}

/// The positions of all entries, in ranking order.
pub open spec fn is_ranking(entries: Seq<EntryModel>, positions: Seq<int>) -> bool {
    &&& positions.len() == entries.len()
    &&& forall|i: int|
        0 <= i < positions.len() ==> 0 <= #[trigger] positions[i] < entries.len()
    &&& forall|k: int| 0 <= k < entries.len() ==> #[trigger] positions.contains(k)
    &&& forall|i: int, j: int|
        0 <= i < j < positions.len() ==> comes_first(
            entries,
            #[trigger] positions[i],
            #[trigger] positions[j],
        )
}

/// The hits are those of the entries, in ranking order.
pub open spec fn is_ranked(hits: Seq<RankedHit>, entries: Seq<EntryModel>) -> bool {
    exists|positions: Seq<int>| #[trigger]
        is_ranking(entries, positions) && hits.len() == positions.len() && (forall|i: int|
            0 <= i < hits.len() ==> (#[trigger] hits[i])@ == entries[positions[i]].hit)
}

fn class_number(class: MatchClass) -> (r: u8)
    ensures
        r == class_place(class),
{
    match class {
        MatchClass::ExactName => 0,
        MatchClass::PrefixName => 1,
        MatchClass::TokenName => 2,
        MatchClass::SubstringName => 3,
        MatchClass::Path => 4,
    }
}

/// Whether the first entry goes strictly before the second by key.
fn entry_precedes(a: &RankEntry, b: &RankEntry) -> (r: bool)
    ensures
        r == (key_order(a@.key, b@.key) < 0),
{
    let left: u8 = class_number(a.hit.match_class);
    let right: u8 = class_number(b.hit.match_class);
    if left != right {
        return left < right;
    }
    let names: i8 = compare_texts(a.name.as_str(), b.name.as_str());
    if names != 0 {
        return names < 0;
    }
    let paths: i8 = compare_texts(a.path.as_str(), b.path.as_str());
    if paths != 0 {
        return paths < 0;
    }
    a.hit.ordinal < b.hit.ordinal
}

proof fn lemma_insert_position(
    entries: Seq<EntryModel>,
    positions: Seq<int>,
    at: int,
)
    requires
        entries.len() >= 1,
        is_ranking(entries.drop_last(), positions),
        0 <= at <= positions.len(),
        forall|i: int|
            at <= i < positions.len() ==> key_order(
                entries.last().key,
                entries[#[trigger] positions[i]].key,
            ) < 0,
        at > 0 ==> key_order(entries.last().key, entries[positions[at - 1]].key) >= 0,
    ensures
        is_ranking(entries, positions.insert(at, entries.len() - 1)),
{
    let fresh = entries.len() - 1;
    let before = entries.drop_last();
    let next = positions.insert(at, fresh);
    assert forall|i: int| 0 <= i < at implies comes_first(
        entries,
        #[trigger] positions[i],
        fresh,
    ) by {
        let p = positions[i];
        let q = positions[at - 1];
        lemma_key_order(entries[fresh].key, entries[q].key);
        if i < at - 1 {
            assert(comes_first(before, p, q));
            lemma_key_order_transitive(entries[p].key, entries[q].key, entries[fresh].key);
        }
    }
    assert forall|i: int, j: int| 0 <= i < j < next.len() implies comes_first(
        entries,
        #[trigger] next[i],
        #[trigger] next[j],
    ) by {
        let a = if i < at { i } else { i - 1 };
        let b = if j < at { j } else { j - 1 };
        if i != at && j != at {
            assert(next[i] == positions[a]);
            assert(next[j] == positions[b]);
            assert(comes_first(before, positions[a], positions[b]));
        } else if i == at {
            assert(next[j] == positions[b]);
        } else {
            assert(next[i] == positions[a]);
        }
    }
    assert forall|i: int| 0 <= i < next.len() implies 0 <= #[trigger] next[i] < entries.len() by {
        if i != at {
            let a = if i < at { i } else { i - 1 };
            assert(next[i] == positions[a]);
        }
    }
    assert forall|k: int| 0 <= k < entries.len() implies #[trigger] next.contains(k) by {
        if k == fresh {
            assert(next[at] == fresh);
        } else {
            assert(positions.contains(k));
            let i = positions.index_of(k);
            if i < at {
                assert(next[i] == k);
            } else {
                assert(next[i + 1] == k);
            }
        }
    }
}

/// Puts hits in ranking order.
pub fn order_hits(entries: Vec<RankEntry>) -> (hits: Vec<RankedHit>)
    ensures
        is_ranked(hits@, entry_models(entries@)),
{
    let ghost all = entry_models(entries@);
    let mut sorted: Vec<RankEntry> = Vec::new();
    let ghost mut positions: Seq<int> = Seq::empty();
    for entry in iter: entries
        invariant
            iter.seq() == entries@,
            all == entry_models(entries@),
            is_ranking(all.take(iter.index()), positions),
            sorted@.len() == positions.len(),
            forall|i: int| 0 <= i < sorted@.len() ==> (#[trigger] sorted@[i])@ == all[positions[i]],
    {
        let ghost seen = iter.index();
        let mut at: usize = sorted.len();
        while at > 0 && entry_precedes(&entry, &sorted[at - 1])
            invariant
                at <= sorted@.len(),
                sorted@.len() == positions.len(),
                forall|i: int|
                    0 <= i < sorted@.len() ==> (#[trigger] sorted@[i])@ == all[positions[i]],
                forall|i: int|
                    at <= i < sorted@.len() ==> key_order(
                        entry@.key,
                        all[#[trigger] positions[i]].key,
                    ) < 0,
            ensures
                at <= sorted@.len(),
                forall|i: int|
                    at <= i < sorted@.len() ==> key_order(
                        entry@.key,
                        all[#[trigger] positions[i]].key,
                    ) < 0,
                at > 0 ==> key_order(entry@.key, all[positions[at - 1]].key) >= 0,
            decreases at,
        {
            at = at - 1;
            assert(sorted@[at as int]@ == all[positions[at as int]]);
        }
        proof {
            let next = all.take(seen + 1);
            assert(next.drop_last() =~= all.take(seen));
            assert(next.last() == entry@);
            lemma_insert_position(next, positions, at as int);
        }
        let ghost old_positions = positions;
        let ghost old_sorted = sorted@;
        sorted.insert(at, entry);
        proof {
            positions = positions.insert(at as int, seen);
            assert forall|i: int| 0 <= i < sorted@.len() implies (#[trigger] sorted@[i])@
                == all[positions[i]] by {
                if i < at {
                    assert(sorted@[i] == old_sorted[i]);
                    assert(positions[i] == old_positions[i]);
                } else if i > at {
                    assert(sorted@[i] == old_sorted[i - 1]);
                    assert(positions[i] == old_positions[i - 1]);
                }
            }
        }
    }
    assert(all.take(all.len() as int) =~= all);
    let mut hits: Vec<RankedHit> = Vec::new();
    for entry in iter: sorted
        invariant
            iter.seq() == sorted@,
            hits@.len() == iter.index(),
            sorted@.len() == positions.len(),
            forall|i: int| 0 <= i < sorted@.len() ==> (#[trigger] sorted@[i])@ == all[positions[i]],
            forall|i: int| 0 <= i < hits@.len() ==> (#[trigger] hits@[i])@ == all[positions[i]].hit,
    {
        assert(sorted@[iter.index()]@ == all[positions[iter.index()]]);
        hits.push(entry.hit);
    }
    proof {
        assert(is_ranking(all, positions));
    }
    hits
}

/// The entry that a record gives, if it matches.
pub open spec fn entry_of(record: CatalogRecord, query: Seq<char>) -> Option<EntryModel> {
    let name = normalized(record.name@);
    let path = normalized(record.path@);
    match class_of(name, path, query) {
        Some(match_class) => Some(
            EntryModel {
                key: SortKey { match_class, name, path, ordinal: record.ordinal },
                hit: HitModel {
                    ordinal: record.ordinal,
                    name: record.name@,
                    path: record.path@,
                    match_class,
                },
            },
        ),
        None => None,
    }
}

/// The entries of the first `n` records that match, in their order.
pub open spec fn matching(candidates: Seq<CatalogRecord>, query: Seq<char>, n: nat) -> Seq<
    EntryModel,
>
    decreases n,
{
    if n == 0 {
        Seq::empty()
    } else {
        let before = matching(candidates, query, (n - 1) as nat);
        match entry_of(candidates[n - 1], query) {
            Some(entry) => before.push(entry),
            None => before,
        }
    }
}

/// Verifies candidates against a normalized query and ranks those that match.
pub fn rank_verified(candidates: Vec<CatalogRecord>, normalized_query: &str) -> (hits: Vec<
    RankedHit,
>)
    ensures
        is_ranked(hits@, matching(candidates@, normalized_query@, candidates@.len())),
{
    let mut entries: Vec<RankEntry> = Vec::new();
    assert(entry_models(entries@) =~= Seq::empty());
    for record in iter: candidates
        invariant
            iter.seq() == candidates@,
            entry_models(entries@) == matching(
                candidates@,
                normalized_query@,
                iter.index() as nat,
            ),
    {
        let ghost before = entry_models(entries@);
        let name = normalize_search_text(record.name.as_str());
        let path = normalize_search_text(record.path.as_str());
        if let Some(match_class) = classify_match(
            name.as_str(),
            path.as_str(),
            normalized_query,
        ) {
            let hit = RankedHit {
                ordinal: record.ordinal,
                name: record.name,
                path: record.path,
                match_class,
            };
            let entry = RankEntry { name, path, hit };
            let ghost model = entry@;
            entries.push(entry);
            assert(entry_models(entries@) =~= before.push(model));
        }
    }
    order_hits(entries)
}

/// A better class always ranks before a worse one.
pub proof fn primary_class_dominates(hits: Seq<RankedHit>, entries: Seq<EntryModel>, i: int, j: int)
    requires
        is_ranked(hits, entries),
        forall|k: int|
            0 <= k < entries.len() ==> (#[trigger] entries[k]).key.match_class
                == entries[k].hit.match_class,
        0 <= i < j < hits.len(),
    ensures
        class_place(hits[i].match_class) <= class_place(hits[j].match_class),
{
    let positions = choose|positions: Seq<int>| #[trigger]
        is_ranking(entries, positions) && hits.len() == positions.len() && (forall|i: int|
            0 <= i < hits.len() ==> (#[trigger] hits[i])@ == entries[positions[i]].hit);
    assert(comes_first(entries, positions[i], positions[j]));
    assert(hits[i]@ == entries[positions[i]].hit);
    assert(hits[j]@ == entries[positions[j]].hit);
}

/// Ranking is determined by the entries: two rankings of the same entries agree.
pub proof fn ranking_is_deterministic(a: Seq<RankedHit>, b: Seq<RankedHit>, entries: Seq<EntryModel>)
    requires
        is_ranked(a, entries),
        is_ranked(b, entries),
    ensures
        a.len() == b.len(),
        forall|i: int| 0 <= i < a.len() ==> (#[trigger] a[i])@ == b[i]@,
{
    let p = choose|positions: Seq<int>| #[trigger]
        is_ranking(entries, positions) && a.len() == positions.len() && (forall|i: int|
            0 <= i < a.len() ==> (#[trigger] a[i])@ == entries[positions[i]].hit);
    let q = choose|positions: Seq<int>| #[trigger]
        is_ranking(entries, positions) && b.len() == positions.len() && (forall|i: int|
            0 <= i < b.len() ==> (#[trigger] b[i])@ == entries[positions[i]].hit);
    lemma_rankings_agree(entries, p, q, entries.len() as int);
    assert forall|i: int| 0 <= i < a.len() implies (#[trigger] a[i])@ == b[i]@ by {
        assert(a[i]@ == entries[p[i]].hit);
        assert(b[i]@ == entries[q[i]].hit);
        assert(p[i] == q[i]);
    }
}

proof fn lemma_rankings_agree(entries: Seq<EntryModel>, p: Seq<int>, q: Seq<int>, n: int)
    requires
        is_ranking(entries, p),
        is_ranking(entries, q),
        0 <= n <= entries.len(),
    ensures
        forall|i: int| 0 <= i < n ==> p[i] == q[i],
    decreases n,
{
    if n > 0 {
        let m = n - 1;
        lemma_rankings_agree(entries, p, q, m);
        let a = p[m];
        let b = q[m];
        if a != b {
            assert(q.contains(a));
            let j = q.index_of(a);
            if j < m {
                assert(p[j] == q[j]);
                assert(comes_first(entries, p[j], p[m]));
                lemma_key_order(entries[a].key, entries[a].key);
                assert(false);
            }
            assert(p.contains(b));
            let k = p.index_of(b);
            if k < m {
                assert(p[k] == q[k]);
                assert(comes_first(entries, q[k], q[m]));
                lemma_key_order(entries[b].key, entries[b].key);
                assert(false);
            }
            assert(comes_first(entries, q[m], q[j]));
            assert(comes_first(entries, p[m], p[k]));
            lemma_key_order(entries[a].key, entries[b].key);
        }
    }
}

} // verus!
