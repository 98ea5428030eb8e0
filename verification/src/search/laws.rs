//! Laws of the search: how texts are compared, what is found, and in which order it comes.

use vstd::prelude::*;
use vstd::utf8::{encode_utf8, encode_utf8_decode_utf8};

use crate::collate::text_order;
use crate::search::normalize::{
    composed, is_run, is_separator, is_separator_stable, lowered, normalized,
    normalized_text_is_separator_stable, separated, tokens, tokens_are_the_maximal_runs,
};
use crate::search::policy::{is_planned, PolicyError, QueryMode, QueryPlan};
use crate::search::ranking::{
    class_of, class_place, comes_first, entry_of, is_ranked, is_ranking, matching, occurs,
    occurs_at, CatalogRecord, MatchClass, RankedHit,
};
use crate::search::retrieval::{
    begun, grams_of, hex, hex_digit, is_index_text, lexical, positional, prefixes_of, request,
    verified, width_of, IndexText, QueryModel, RetrievalModel, RetrievalStage, Strategy,
    PREFIX_LENGTH,
};
use crate::text::{lowercase_of_char, texts_are_joined_in_order};

verus! {

/// Texts are ordered by the first character in which they differ, and a text comes before every
/// longer one that starts with it.
pub proof fn texts_are_ordered_by_their_first_difference(
    common: Seq<char>,
    a: char,
    b: char,
    rest: Seq<char>,
    other: Seq<char>,
)
    ensures
        a < b ==> text_order(common + seq![a] + rest, common + seq![b] + other) < 0,
        a > b ==> text_order(common + seq![a] + rest, common + seq![b] + other) > 0,
        text_order(common, common + seq![b] + other) < 0,
        text_order(common, common) == 0,
    decreases common.len(),
{
    let x = common + seq![a] + rest;
    let y = common + seq![b] + other;
    if common.len() > 0 {
        let tail = common.drop_first();
        texts_are_ordered_by_their_first_difference(tail, a, b, rest, other);
        assert(x.drop_first() =~= tail + seq![a] + rest);
        assert(y.drop_first() =~= tail + seq![b] + other);
    } else {
        assert(x[0] == a && y[0] == b);
    }
}

/// Lower case is taken character by character.
pub proof fn lower_case_is_taken_by_character(a: Seq<char>, b: Seq<char>, c: char)
    ensures
        lowered(a + b) == lowered(a) + lowered(b),
        lowered(seq![c]) == lowercase_of_char(c),
    decreases b.len(),
{
    let one = seq![c];
    assert(one.drop_last() =~= Seq::empty());
    assert(one.last() == c);
    assert(lowered(one.drop_last()) =~= Seq::empty());
    assert(lowered(one) == lowered(one.drop_last()) + lowercase_of_char(c));
    assert(lowered(one) =~= lowercase_of_char(c));
    if b.len() == 0 {
        assert(a + b =~= a);
        assert(lowered(a) + lowered(b) =~= lowered(a));
    } else {
        lower_case_is_taken_by_character(a, b.drop_last(), c);
        assert((a + b).drop_last() =~= a + b.drop_last());
        assert(lowered(a + b) =~= lowered(a) + lowered(b));
    }
}

/// Each run of separators, whichever they are, becomes one slash; everything around it stays.
pub proof fn runs_of_separators_become_one_slash(a: Seq<char>, run: Seq<char>, b: Seq<char>)
    requires
        a.len() > 0 ==> !is_separator(a.last()),
        b.len() > 0 ==> !is_separator(b[0]),
        run.len() > 0,
        forall|i: int| 0 <= i < run.len() ==> #[trigger] run[i] == '/' || run[i] == '\\',
    ensures
        separated(a + run + b) == separated(a) + seq!['/'] + separated(b),
    decreases b.len(), run.len(),
{
    let all = a + run + b;
    if b.len() > 0 {
        let shorter = b.drop_last();
        runs_of_separators_become_one_slash(a, run, shorter);
        assert(all.drop_last() =~= a + run + shorter);
        assert(all.last() == b.last());
        if b.len() >= 2 {
            assert(all[all.len() - 2] == b[b.len() - 2]);
        }
        let front = separated(a) + seq!['/'];
        assert(separated(all) =~= front + separated(b));
    } else {
        assert(b =~= Seq::empty());
        assert(run[run.len() - 1] == '/' || run[run.len() - 1] == '\\');
        assert(all.last() == run.last());
        if run.len() > 1 {
            let shorter = run.drop_last();
            assert forall|i: int| 0 <= i < shorter.len() implies #[trigger] shorter[i] == '/'
                || shorter[i] == '\\' by {
                assert(shorter[i] == run[i]);
            }
            runs_of_separators_become_one_slash(a, shorter, b);
            assert(all.drop_last() =~= a + shorter + b);
            assert(run[run.len() - 2] == '/' || run[run.len() - 2] == '\\');
            assert(all[all.len() - 2] == run[run.len() - 2]);
        } else {
            assert(all.drop_last() =~= a);
            if a.len() > 0 {
                assert(all[all.len() - 2] == a.last());
            }
        }
        assert(separated(a) + seq!['/'] + separated(b) =~= separated(a).push('/'));
    }
}

/// A text without separators is left as it is.
pub proof fn texts_without_separators_stay(text: Seq<char>)
    requires
        forall|i: int| 0 <= i < text.len() ==> #[trigger] text[i] != '/' && text[i] != '\\',
    ensures
        separated(text) == text,
    decreases text.len(),
{
    if text.len() > 0 {
        let before = text.drop_last();
        assert forall|i: int| 0 <= i < before.len() implies #[trigger] before[i] != '/' && before[i]
            != '\\' by {
            assert(before[i] == text[i]);
        }
        texts_without_separators_stay(before);
        assert(text[text.len() - 1] != '/');
        assert(before.push(text.last()) =~= text);
    }
}

/// Texts are compared without regard to how they are composed and to the case of their letters,
/// and what they are compared by holds no backslash and no two slashes in a row.
pub proof fn composition_and_case_do_not_count(a: Seq<char>, b: Seq<char>)
    ensures
        composed(a) == composed(b) ==> normalized(a) == normalized(b),
        lowered(composed(a)) == lowered(composed(b)) ==> normalized(a) == normalized(b),
        is_separator_stable(normalized(a)),
        (forall|i: int|
            0 <= i < lowered(composed(a)).len() ==> #[trigger] lowered(composed(a))[i] != '/'
                && lowered(composed(a))[i] != '\\') ==> normalized(a) == lowered(composed(a)),
{
    normalized_text_is_separator_stable(lowered(composed(a)));
    if forall|i: int|
        0 <= i < lowered(composed(a)).len() ==> #[trigger] lowered(composed(a))[i] != '/'
            && lowered(composed(a))[i] != '\\' {
        texts_without_separators_stay(lowered(composed(a)));
    }
}

/// A text contains another exactly when it is made of something, the other, and something.
pub proof fn containing_is_standing_between(
    text: Seq<char>,
    needle: Seq<char>,
    before: Seq<char>,
    after: Seq<char>,
)
    ensures
        occurs(before + needle + after, needle),
        occurs_at(needle + after, needle, 0),
        occurs(text, needle) ==> exists|a: Seq<char>, b: Seq<char>| text == #[trigger] (a + needle
            + b),
        occurs_at(text, needle, 0) ==> exists|b: Seq<char>| text == #[trigger] (needle + b),
{
    let around = before + needle + after;
    assert(around.subrange(before.len() as int, (before.len() + needle.len()) as int) =~= needle);
    assert(occurs_at(around, needle, before.len() as int));
    assert((needle + after).subrange(0, needle.len() as int) =~= needle);
    if occurs(text, needle) {
        let i = choose|i: int| #[trigger] occurs_at(text, needle, i);
        let a = text.take(i);
        let b = text.skip(i + needle.len());
        assert(text =~= a + needle + b);
    }
    if occurs_at(text, needle, 0) {
        let b = text.skip(needle.len() as int);
        assert(text =~= needle + b);
    }
}

/// A record is classed by the best way in which it matches: the name itself, its start, one of its
/// words, somewhere in it, and only then the path. The classes are ranked in that order.
pub proof fn records_are_classed_by_their_best_match(
    name: Seq<char>,
    path: Seq<char>,
    query: Seq<char>,
    rest: Seq<char>,
)
    ensures
        class_of(query, path, query) == Some(MatchClass::ExactName),
        rest.len() > 0 ==> class_of(query + rest, path, query) == Some(MatchClass::PrefixName),
        class_of(name, path, query) == Some(MatchClass::ExactName) <==> name == query,
        class_of(name, path, query) == Some(MatchClass::PrefixName) <==> name != query
            && name.len() >= query.len() && name.take(query.len() as int) == query,
        class_of(name, path, query) == Some(MatchClass::TokenName) <==> {
            &&& name != query
            &&& !occurs_at(name, query, 0)
            &&& exists|i: int, j: int| #[trigger]
                is_run(name, i, j) && name.subrange(i, j) == query
        },
        class_of(name, path, query) == Some(MatchClass::SubstringName) ==> occurs(name, query)
            && !(exists|i: int, j: int| #[trigger]
            is_run(name, i, j) && name.subrange(i, j) == query),
        class_place(MatchClass::ExactName) < class_place(MatchClass::PrefixName) < class_place(
            MatchClass::TokenName,
        ) < class_place(MatchClass::SubstringName) < class_place(MatchClass::Path),
{
    tokens_are_the_maximal_runs(name, query);
    if name.len() >= query.len() {
        assert(name.take(query.len() as int) =~= name.subrange(0, query.len() as int));
    }
    if rest.len() > 0 {
        assert((query + rest).subrange(0, query.len() as int) =~= query);
        assert((query + rest).len() != query.len());
    }
}

proof fn lemma_matching(candidates: Seq<CatalogRecord>, query: Seq<char>, n: nat)
    requires
        n <= candidates.len(),
    ensures
        forall|i: int|
            0 <= i < matching(candidates, query, n).len() ==> exists|k: int|
                0 <= k < n && entry_of(#[trigger] candidates[k], query) == Some(
                    #[trigger] matching(candidates, query, n)[i],
                ),
        forall|k: int|
            0 <= k < n && entry_of(#[trigger] candidates[k], query) is Some ==> matching(
                candidates,
                query,
                n,
            ).contains(entry_of(candidates[k], query)->0),
    decreases n,
{
    if n > 0 {
        let m = (n - 1) as nat;
        lemma_matching(candidates, query, m);
        let before = matching(candidates, query, m);
        let all = matching(candidates, query, n);
        assert forall|i: int| 0 <= i < all.len() implies exists|k: int|
            0 <= k < n && entry_of(#[trigger] candidates[k], query) == Some(#[trigger] all[i]) by {
            if i < before.len() {
                assert(all[i] == before[i]);
                let k = choose|k: int|
                    0 <= k < m && entry_of(#[trigger] candidates[k], query) == Some(before[i]);
                assert(entry_of(candidates[k], query) == Some(all[i]));
            } else {
                assert(entry_of(candidates[n - 1], query) == Some(all[i]));
            }
        }
        assert forall|k: int| 0 <= k < n && entry_of(
            #[trigger] candidates[k],
            query,
        ) is Some implies all.contains(entry_of(candidates[k], query)->0) by {
            if k == n - 1 {
                assert(all[all.len() - 1] == entry_of(candidates[k], query)->0);
            } else {
                let e = entry_of(candidates[k], query)->0;
                let i = before.index_of(e);
                assert(all[i] == e);
            }
        }
    }
}

/// Every hit is one of the records, shown as it is and classed by how it matches, and every record
/// whose normalized name or path contains the query is a hit.
pub proof fn hits_are_the_records_that_match(
    hits: Seq<RankedHit>,
    candidates: Seq<CatalogRecord>,
    query: Seq<char>,
)
    requires
        is_ranked(hits, matching(candidates, query, candidates.len())),
    ensures
        forall|i: int|
            0 <= i < hits.len() ==> exists|k: int|
                0 <= k < candidates.len() && is_hit_of(#[trigger] hits[i], #[trigger] candidates[k], query),
        forall|k: int|
            0 <= k < candidates.len() && (occurs(normalized((#[trigger] candidates[k]).name@), query)
                || occurs(normalized(candidates[k].path@), query)) ==> exists|i: int|
                0 <= i < hits.len() && is_hit_of(#[trigger] hits[i], candidates[k], query),
{
    let entries = matching(candidates, query, candidates.len());
    lemma_matching(candidates, query, candidates.len());
    let positions = choose|positions: Seq<int>| #[trigger]
        is_ranking(entries, positions) && hits.len() == positions.len() && (forall|i: int|
            0 <= i < hits.len() ==> (#[trigger] hits[i])@ == entries[positions[i]].hit);
    assert forall|i: int| 0 <= i < hits.len() implies exists|k: int|
        0 <= k < candidates.len() && is_hit_of(#[trigger] hits[i], #[trigger] candidates[k], query) by {
        let e = entries[positions[i]];
        assert(hits[i]@ == e.hit);
        let k = choose|k: int|
            0 <= k < candidates.len() && entry_of(#[trigger] candidates[k], query) == Some(e);
        assert(is_hit_of(hits[i], candidates[k], query));
    }
    assert forall|k: int| 0 <= k < candidates.len() && (occurs(
        normalized((#[trigger] candidates[k]).name@),
        query,
    ) || occurs(normalized(candidates[k].path@), query)) implies exists|i: int|
        0 <= i < hits.len() && is_hit_of(#[trigger] hits[i], candidates[k], query) by {
        crate::search::ranking::hits_are_exactly_the_substring_matches(
            normalized(candidates[k].name@),
            normalized(candidates[k].path@),
            query,
        );
        let e = entry_of(candidates[k], query)->0;
        let p = entries.index_of(e);
        assert(positions.contains(p));
        let i = positions.index_of(p);
        assert(hits[i]@ == entries[positions[i]].hit);
        assert(is_hit_of(hits[i], candidates[k], query));
    }
}

/// The hit shows the record, under the class of its match.
pub open spec fn is_hit_of(hit: RankedHit, record: CatalogRecord, query: Seq<char>) -> bool {
    &&& hit.ordinal == record.ordinal
    &&& hit.name@ == record.name@
    &&& hit.path@ == record.path@
    &&& class_of(normalized(record.name@), normalized(record.path@), query) == Some(
        hit.match_class,
    )
}

/// Hits come in the order of their classes, then of their normalized names, then of their
/// normalized paths, and then as they stand in the catalog.
pub proof fn hits_come_in_order(
    hits: Seq<RankedHit>,
    candidates: Seq<CatalogRecord>,
    query: Seq<char>,
    i: int,
    j: int,
)
    requires
        is_ranked(hits, matching(candidates, query, candidates.len())),
        0 <= i < j < hits.len(),
    ensures
        ({
            let a = hits[i];
            let b = hits[j];
            let names = text_order(normalized(a.name@), normalized(b.name@));
            let paths = text_order(normalized(a.path@), normalized(b.path@));
            &&& class_place(a.match_class) <= class_place(b.match_class)
            &&& a.match_class == b.match_class ==> names <= 0
            &&& a.match_class == b.match_class && names == 0 ==> paths <= 0
            &&& a.match_class == b.match_class && names == 0 && paths == 0 ==> a.ordinal
                <= b.ordinal
        }),
{
    let entries = matching(candidates, query, candidates.len());
    lemma_matching(candidates, query, candidates.len());
    let positions = choose|positions: Seq<int>| #[trigger]
        is_ranking(entries, positions) && hits.len() == positions.len() && (forall|i: int|
            0 <= i < hits.len() ==> (#[trigger] hits[i])@ == entries[positions[i]].hit);
    assert(comes_first(entries, positions[i], positions[j]));
    assert(hits[i]@ == entries[positions[i]].hit);
    assert(hits[j]@ == entries[positions[j]].hit);
    let x = entries[positions[i]];
    let y = entries[positions[j]];
    let k = choose|k: int|
        0 <= k < candidates.len() && entry_of(#[trigger] candidates[k], query) == Some(x);
    let l = choose|k: int|
        0 <= k < candidates.len() && entry_of(#[trigger] candidates[k], query) == Some(y);
    assert(x.key.name == normalized(hits[i].name@) && y.key.name == normalized(hits[j].name@));
}

/// A query is run exactly when the limit lies between one and five hundred, something is left of
/// the query, and a query for substrings alone has three characters; the plan then asks for that
/// query and that limit, and uses grams for three characters and more. Otherwise the first of these
/// that fails is told.
pub proof fn queries_are_planned_within_bounds(
    r: Result<QueryPlan, PolicyError>,
    limit: usize,
    query: Seq<char>,
    mode: QueryMode,
)
    requires
        is_planned(r, limit, query, mode),
        query.len() <= usize::MAX,
    ensures
        r is Ok <==> 1 <= limit <= 500 && query.len() > 0 && (mode == QueryMode::SubstringOnly
            ==> query.len() >= 3),
        r matches Ok(plan) ==> plan.normalized_query@ == query && plan.candidate_limit == limit && (
        plan.allow_ngram <==> query.len() >= 3),
        r matches Err(PolicyError::CandidateLimit { requested, maximum }) ==> requested == limit
            && maximum == 500 && (limit == 0 || limit > 500),
        r matches Err(PolicyError::EmptyQuery) ==> query.len() == 0 && 1 <= limit <= 500,
        r matches Err(PolicyError::ExpensiveShortSubstring { length }) ==> length == query.len()
            && length < 3 && mode == QueryMode::SubstringOnly,
{
}

/// The prefixes of a text are its beginnings, each one character longer than the one before, up to
/// the length or the text itself.
pub proof fn prefixes_are_the_beginnings(text: Seq<char>, maximum: nat, n: int)
    ensures
        prefixes_of(text, maximum).len() <= maximum,
        prefixes_of(text, maximum).len() <= text.len(),
        1 <= n <= maximum && n <= text.len() ==> prefixes_of(text, maximum).contains(text.take(n)),
        0 <= n < prefixes_of(text, maximum).len() ==> prefixes_of(text, maximum)[n].len() == n + 1
            && occurs_at(text, prefixes_of(text, maximum)[n], 0),
{
    if 1 <= n <= maximum && n <= text.len() {
        assert(prefixes_of(text, maximum)[n - 1] == text.take(n));
    }
    if 0 <= n < prefixes_of(text, maximum).len() {
        let prefix = prefixes_of(text, maximum)[n];
        assert(text.subrange(0, prefix.len() as int) =~= prefix);
    }
}

proof fn lemma_hex_digits(a: u8, b: u8)
    requires
        a < 16,
        b < 16,
    ensures
        hex_digit(a) == hex_digit(b) ==> a == b,
{
}

/// Different bytes are written differently, two digits each.
pub proof fn hexadecimal_notation_is_faithful(a: Seq<u8>, b: Seq<u8>)
    ensures
        hex(a).len() == 2 * a.len(),
        hex(a) == hex(b) ==> a == b,
{
    let x = hex(a);
    let y = hex(b);
    if x == y {
        assert(a.len() == b.len());
        assert forall|i: int| 0 <= i < a.len() implies a[i] == b[i] by {
            assert(x[2 * i] == hex_digit(a[i] / 16));
            assert(y[2 * i] == hex_digit(b[i] / 16));
            assert((2 * i + 1) / 2 == i && (2 * i + 1) % 2 == 1);
            assert(x[2 * i + 1] == hex_digit(a[i] % 16));
            assert(y[2 * i + 1] == hex_digit(b[i] % 16));
            lemma_hex_digits(a[i] / 16, b[i] / 16);
            lemma_hex_digits(a[i] % 16, b[i] % 16);
        }
        assert(a =~= b);
    }
}

/// Grams miss nothing: where a name contains a query, the grams of the query stand among those of
/// the name, in the same order and without a gap. A text shorter than a gram has none.
pub proof fn grams_of_a_part_stand_in_the_whole(
    name: Seq<char>,
    query: Seq<char>,
    width: nat,
    i: int,
)
    requires
        width > 0,
        occurs_at(name, query, i),
        query.len() >= width,
    ensures
        grams_of(query, width).len() == query.len() - width + 1,
        i + grams_of(query, width).len() <= grams_of(name, width).len(),
        grams_of(name, width).subrange(i, i + grams_of(query, width).len()) == grams_of(
            query,
            width,
        ),
{
    let part = grams_of(query, width);
    let whole = grams_of(name, width);
    assert forall|k: int| 0 <= k < part.len() implies whole[i + k] == part[k] by {
        let piece = name.subrange(i, i + query.len());
        assert(piece == query);
        let from = name.subrange(i + k, i + k + width);
        let to = query.subrange(k, k + width);
        assert forall|x: int| 0 <= x < width implies #[trigger] from[x] == to[x] by {
            assert(piece[k + x] == name[i + k + x]);
        }
        assert(from =~= to);
    }
    assert(whole.subrange(i, i + part.len()) =~= part);
}

/// A gram stands for its characters alone: two pieces of text have the same gram only if they are
/// the same.
pub proof fn grams_tell_their_text(a: Seq<char>, b: Seq<char>)
    requires
        a.len() == b.len(),
        a.len() > 0,
        grams_of(a, a.len()) == grams_of(b, b.len()),
    ensures
        a == b,
{
    assert(a.subrange(0, a.len() as int) =~= a);
    assert(b.subrange(0, b.len() as int) =~= b);
    assert(grams_of(a, a.len())[0] == hex(encode_utf8(a)));
    assert(grams_of(b, b.len())[0] == hex(encode_utf8(b)));
    hexadecimal_notation_is_faithful(encode_utf8(a), encode_utf8(b));
    encode_utf8_decode_utf8(a);
    encode_utf8_decode_utf8(b);
}

/// A retrieval starts with grams only where they may be used, the query holds one, and the strategy
/// does not put words first; it asks for the planned query and no more than the limit.
pub proof fn retrievals_start_as_planned(strategy: Strategy, plan: QueryPlan)
    ensures
        ({
            let m = begun(strategy, plan);
            &&& m.query == plan.normalized_query@
            &&& m.limit == plan.candidate_limit
            &&& m.found.len() == 0
            &&& m.stage == RetrievalStage::Grams <==> {
                &&& plan.allow_ngram
                &&& strategy != Strategy::TokenPrefixLimitedTrigram
                &&& plan.normalized_query@.len() >= (if strategy == Strategy::BoundedFourgram {
                    4nat
                } else {
                    3
                })
            }
            &&& m.stage != RetrievalStage::Done
            &&& m.limit > 0 ==> (request(m) matches Some((query, count)) && count == m.limit
                && query == if m.stage == RetrievalStage::Grams {
                positional(m.query, width_of(strategy))
            } else {
                lexical(m.query)
            })
        }),
{
}

/// No more is asked for than the limit still allows, and nothing once it is reached.
pub proof fn requests_stay_within_the_limit(m: RetrievalModel)
    ensures
        request(m) matches Some((query, count)) ==> count + m.found.len() == m.limit && count > 0,
        m.found.len() >= m.limit ==> request(m) is None,
        m.found.len() < m.limit && m.stage != RetrievalStage::Done ==> request(m) is Some,
{
}

/// Words first, then grams: after the words were looked up, grams follow only under the strategy
/// that limits them, where they may be used and candidates are still missing; after grams nothing
/// follows.
pub proof fn grams_follow_words_where_candidates_are_missing(
    m: RetrievalModel,
    answer: Seq<crate::search::retrieval::DocumentAddress>,
)
    ensures
        ({
            let next = crate::search::retrieval::answered(m, answer);
            &&& m.stage != RetrievalStage::Lexical ==> next.stage == RetrievalStage::Done
            &&& m.stage == RetrievalStage::Lexical ==> (next.stage == RetrievalStage::Grams <==> {
                &&& m.strategy == Strategy::TokenPrefixLimitedTrigram
                &&& m.allow_ngram
                &&& next.found.len() < m.limit
            })
            &&& next.stage != RetrievalStage::Lexical
        }),
{
}

/// A query for words asks for names, tokens and prefixes alike; one for grams asks for all grams of
/// the query in their order.
pub proof fn queries_ask_for_the_whole_text(text: Seq<char>, width: nat)
    requires
        0 < width <= text.len(),
    ensures
        lexical(text) matches QueryModel::AnyField { fields, text: asked } && asked == text
            && fields.contains(crate::search::retrieval::IndexField::Exact) && fields.contains(
            crate::search::retrieval::IndexField::Token,
        ) && fields.contains(crate::search::retrieval::IndexField::Prefix) && !fields.contains(
            crate::search::retrieval::IndexField::Gram,
        ),
        match positional(text, width) {
            QueryModel::Term { field, text: gram } => field
                == crate::search::retrieval::IndexField::Gram && grams_of(text, width) == seq![gram],
            QueryModel::Phrase { field, texts } => field
                == crate::search::retrieval::IndexField::Gram && texts == grams_of(text, width)
                && texts.len() > 1,
            QueryModel::AnyField { .. } => false,
        },
{
    let fields = seq![
        crate::search::retrieval::IndexField::Exact,
        crate::search::retrieval::IndexField::Token,
        crate::search::retrieval::IndexField::Prefix,
    ];
    assert(fields[0] == crate::search::retrieval::IndexField::Exact);
    assert(fields[1] == crate::search::retrieval::IndexField::Token);
    assert(fields[2] == crate::search::retrieval::IndexField::Prefix);
    let parts = grams_of(text, width);
    if parts.len() == 1 {
        assert(parts =~= seq![parts[0]]);
    }
}

/// Verification keeps exactly the candidates whose normalized name or path contains the query, in
/// their order.
pub proof fn verification_keeps_what_contains_the_query(
    all: Seq<CatalogRecord>,
    query: Seq<char>,
    n: nat,
)
    requires
        n <= all.len(),
    ensures
        verified(all, query, n) == all.take(n as int).filter(
            |r: CatalogRecord|
                occurs(normalized(r.name@), query) || occurs(normalized(r.path@), query),
        ),
    decreases n,
{
    let keep = |r: CatalogRecord|
        occurs(normalized(r.name@), query) || occurs(normalized(r.path@), query);
    reveal(Seq::filter);
    if n > 0 {
        let m = (n - 1) as nat;
        verification_keeps_what_contains_the_query(all, query, m);
        assert(all.take(n as int).drop_last() =~= all.take(m as int));
        assert(all.take(n as int).last() == all[n - 1]);
    } else {
        assert(all.take(0) =~= Seq::empty());
    }
}

/// The index holds a name whole. The text for its words is the word itself where there is one
/// alone, and the text for its beginnings starts with its first character. A name has one entry.
pub proof fn indexes_hold_the_whole_name(
    r: IndexText,
    other: IndexText,
    name: Seq<char>,
    strategy: Strategy,
)
    requires
        is_index_text(r, name, strategy),
        is_index_text(other, name, strategy),
    ensures
        r.exact@ == name,
        r.exact@ == other.exact@ && r.token@ == other.token@ && r.prefix@ == other.prefix@
            && r.gram@ == other.gram@,
        tokens(name).len() == 1 ==> r.token@ == tokens(name)[0],
        name.len() == 0 ==> r.prefix@.len() == 0,
        name.len() > 0 ==> name.take(1).is_prefix_of(r.prefix@),
{
    let all = prefixes_of(name, PREFIX_LENGTH as nat);
    if name.len() > 0 {
        assert(all.len() > 0);
        assert(all[0] == name.take(1));
        let rest = all.drop_first();
        assert(all =~= seq![all[0]] + rest);
        texts_are_joined_in_order(seq![all[0]], rest, ' ');
    }
}

} // verus!
