//! Laws of what is measured: ratios, recall, precision and percentiles.

use vstd::prelude::*;

use crate::search::measure::{
    ascending, at_most, in_millis, is_number, number_order, numbers_are_sorted, smaller, whole,
    Ratio,
};
use crate::search::outcome::{quotient, rejection, CandidateMetrics};
use crate::search::ranking::RankedHit;
use crate::search::recall::{
    found, is_returned, minimum_precision_of, minimum_recall_of, naming, percentile_of,
    sample_precision, sample_recall, sampled, samples_of, summary_of, unmeasured,
    CaseResultModel,
};
use crate::search::report::{
    band, benchmark_refusal, labelled, percentile_position, percentile_value_of, OptionsModel,
};
use crate::search::retrieval::{strategy_label, Strategy};
use crate::search::workload::CaseModel;
use crate::sorting::ascending_keeps_the_elements;

verus! {

/// Numbers are compared by their value: whole numbers as such, milliseconds by their nanoseconds,
/// and of two numbers the smaller is one of them and exceeds neither.
pub proof fn numbers_are_compared_by_value(a: u64, b: u64, x: Ratio, y: Ratio)
    requires
        is_number(x),
        is_number(y),
    ensures
        at_most(whole(a), whole(b)) <==> a <= b,
        at_most(in_millis(a), in_millis(b)) <==> a <= b,
        at_most(in_millis(a), whole(b)) <==> a <= b * 1_000_000,
        at_most(x, y) || at_most(y, x),
        at_most(smaller(x, y), x) && at_most(smaller(x, y), y),
        smaller(x, y) == x || smaller(x, y) == y,
        is_number(whole(a)) && is_number(in_millis(a)),
{
    assert(a * 1_000_000 <= b * 1_000_000 <==> a <= b);
    let (p, q) = (x.numerator as int, x.denominator as int);
    assert(p * q <= p * q);
}

proof fn lemma_found(expected: Seq<u64>, hits: Seq<RankedHit>, n: nat)
    requires
        n <= expected.len(),
    ensures
        found(expected, hits, n) <= n,
        found(expected, hits, n) == n <==> forall|i: int|
            0 <= i < n ==> is_returned(hits, #[trigger] expected[i]),
        found(expected, hits, n) == 0 <==> forall|i: int|
            0 <= i < n ==> !is_returned(hits, #[trigger] expected[i]),
    decreases n,
{
    if n > 0 {
        lemma_found(expected, hits, (n - 1) as nat);
        assert(expected[n - 1] == expected[n - 1]);
    }
}

proof fn lemma_found_grows(expected: Seq<u64>, hits: Seq<RankedHit>, more: Seq<RankedHit>, n: nat)
    requires
        n <= expected.len(),
        hits.is_prefix_of(more),
    ensures
        found(expected, hits, n) <= found(expected, more, n),
    decreases n,
{
    if n > 0 {
        lemma_found_grows(expected, hits, more, (n - 1) as nat);
        if is_returned(hits, expected[n - 1]) {
            let i = choose|i: int|
                0 <= i < hits.len() && (#[trigger] hits[i]).ordinal == expected[n - 1];
            assert(more[i] == hits[i]);
            assert(more[i].ordinal == expected[n - 1]);
        }
    }
}

/// Recall is the share of the true hits that came back: all of it exactly when each came back,
/// nothing exactly when none did, and never less with more hits.
pub proof fn recall_is_the_share_that_came_back(
    expected: Seq<u64>,
    hits: Seq<RankedHit>,
    more: Seq<RankedHit>,
)
    requires
        expected.len() <= u64::MAX,
        hits.is_prefix_of(more),
    ensures
        ({
            let recall = sample_recall(expected, hits);
            &&& is_number(recall)
            &&& at_most(recall, whole(1))
            &&& at_most(whole(1), recall) <==> forall|i: int|
                0 <= i < expected.len() ==> is_returned(hits, #[trigger] expected[i])
            &&& expected.len() > 0 ==> (recall.numerator == 0 <==> forall|i: int|
                0 <= i < expected.len() ==> !is_returned(hits, #[trigger] expected[i]))
            &&& at_most(recall, sample_recall(expected, more))
        }),
{
    lemma_found(expected, hits, expected.len());
    lemma_found(expected, more, expected.len());
    lemma_found_grows(expected, hits, more, expected.len());
    if expected.len() > 0 {
        let (a, b, d) = (
            found(expected, hits, expected.len()) as int,
            found(expected, more, expected.len()) as int,
            expected.len() as int,
        );
        assert(a * d <= b * d) by (nonlinear_arith)
            requires
                a <= b,
                d > 0,
        ;
    }
}

proof fn lemma_naming(hits: Seq<RankedHit>, query: Seq<char>, n: nat)
    requires
        n <= hits.len(),
    ensures
        naming(hits, query, n) <= n,
        naming(hits, query, n) == n <==> forall|i: int|
            0 <= i < n ==> names(#[trigger] hits[i], query),
        naming(hits, query, n) == 0 <==> forall|i: int|
            0 <= i < n ==> !names(#[trigger] hits[i], query),
    decreases n,
{
    if n > 0 {
        lemma_naming(hits, query, (n - 1) as nat);
        assert(names(hits[n - 1], query) || !names(hits[n - 1], query));
    }
}

/// The normalized name of the hit contains the query.
pub open spec fn names(hit: RankedHit, query: Seq<char>) -> bool {
    crate::search::ranking::occurs(crate::search::normalize::normalized(hit.name@), query)
}

/// Precision is the share of the hits that contain the query in their name: all of it exactly when
/// each does, nothing exactly when none does. No hits are right only where nothing is to be found.
pub proof fn precision_is_the_share_that_matches(
    expected: Seq<u64>,
    hits: Seq<RankedHit>,
    query: Seq<char>,
)
    requires
        hits.len() <= u64::MAX,
    ensures
        ({
            let precision = sample_precision(expected, hits, query);
            &&& is_number(precision)
            &&& at_most(precision, whole(1))
            &&& hits.len() > 0 ==> (at_most(whole(1), precision) <==> forall|i: int|
                0 <= i < hits.len() ==> names(#[trigger] hits[i], query))
            &&& hits.len() > 0 ==> (precision.numerator == 0 <==> forall|i: int|
                0 <= i < hits.len() ==> !names(#[trigger] hits[i], query))
            &&& hits.len() == 0 ==> (at_most(whole(1), precision) <==> expected.len() == 0)
        }),
{
    lemma_naming(hits, query, hits.len());
}

/// A case keeps its worst recall and precision and its largest counts, and every sample in order.
pub proof fn samples_are_taken_into_account(
    m: CaseResultModel,
    expected: Seq<u64>,
    hits: Seq<RankedHit>,
    candidate_count: nat,
    end_to_end_ns: u64,
)
    requires
        is_number(m.recall),
        is_number(m.precision),
        expected.len() <= u64::MAX,
        hits.len() <= u64::MAX,
    ensures
        ({
            let next = sampled(m, expected, hits, candidate_count, end_to_end_ns);
            let query = crate::search::normalize::normalized(m.case.query);
            &&& at_most(next.recall, m.recall)
            &&& at_most(next.recall, sample_recall(expected, hits))
            &&& next.recall == m.recall || next.recall == sample_recall(expected, hits)
            &&& at_most(next.precision, m.precision)
            &&& at_most(next.precision, sample_precision(expected, hits, query))
            &&& next.precision == m.precision || next.precision == sample_precision(
                expected,
                hits,
                query,
            )
            &&& next.returned >= m.returned && next.returned >= hits.len() && (next.returned
                == m.returned || next.returned == hits.len())
            &&& next.candidate_count >= m.candidate_count && next.candidate_count
                >= candidate_count && (next.candidate_count == m.candidate_count
                || next.candidate_count == candidate_count)
            &&& next.samples.len() == m.samples.len() + 1
            &&& next.samples.drop_last() == m.samples
            &&& next.samples.last() == in_millis(end_to_end_ns)
            &&& next.case == m.case && next.ground_truth == m.ground_truth
                && next.within_candidate_budget == m.within_candidate_budget
        }),
{
    let query = crate::search::normalize::normalized(m.case.query);
    recall_is_the_share_that_came_back(expected, hits, hits);
    precision_is_the_share_that_matches(expected, hits, query);
    numbers_are_compared_by_value(0, 0, m.recall, sample_recall(expected, hits));
    numbers_are_compared_by_value(0, 0, m.precision, sample_precision(expected, hits, query));
    let next = sampled(m, expected, hits, candidate_count, end_to_end_ns);
    assert(next.samples.drop_last() =~= m.samples);
}

/// A case that was not measured yet has missed nothing; it fits the limit exactly where its true
/// hits do.
pub proof fn unmeasured_cases_have_missed_nothing(case: CaseModel, expected: nat, limit: nat)
    ensures
        ({
            let m = unmeasured(case, expected, limit);
            &&& m.case == case
            &&& m.ground_truth == expected
            &&& m.within_candidate_budget <==> expected <= limit
            &&& m.recall == whole(1) && m.precision == whole(1)
            &&& m.samples.len() == 0 && m.returned == 0 && m.candidate_count == 0
        }),
{
}

proof fn lemma_at_most_trans(a: Ratio, b: Ratio, c: Ratio)
    requires
        is_number(a),
        is_number(b),
        is_number(c),
        at_most(a, b),
        at_most(b, c),
    ensures
        at_most(a, c),
{
    let (an, ad) = (a.numerator as int, a.denominator as int);
    let (bn, bd) = (b.numerator as int, b.denominator as int);
    let (cn, cd) = (c.numerator as int, c.denominator as int);
    assert(an * cd <= cn * ad) by (nonlinear_arith)
        requires
            ad > 0,
            bd > 0,
            cd > 0,
            an * bd <= bn * ad,
            bn * cd <= cn * bd,
    {
        assert((an * bd) * cd <= (bn * ad) * cd);
        assert((bn * cd) * ad <= (cn * bd) * ad);
        assert((an * cd) * bd <= (cn * ad) * bd);
    }
}

/// The worst recall of a run exceeds that of no case that fits the limit, and is that of one of
/// them, or everything; cases that do not fit do not count. The worst precision counts every case.
pub proof fn the_worst_case_counts(results: Seq<CaseResultModel>, n: nat, i: int)
    requires
        n <= results.len(),
        forall|k: int|
            0 <= k < results.len() ==> is_number((#[trigger] results[k]).recall) && is_number(
                results[k].precision,
            ),
        0 <= i < n,
    ensures
        is_number(minimum_recall_of(results, n)),
        is_number(minimum_precision_of(results, n)),
        results[i].within_candidate_budget ==> at_most(
            minimum_recall_of(results, n),
            results[i].recall,
        ),
        at_most(minimum_precision_of(results, n), results[i].precision),
        minimum_recall_of(results, n) == whole(1) || exists|k: int|
            0 <= k < n && (#[trigger] results[k]).within_candidate_budget && results[k].recall
                == minimum_recall_of(results, n),
        minimum_precision_of(results, n) == whole(1) || exists|k: int|
            0 <= k < n && (#[trigger] results[k]).precision == minimum_precision_of(results, n),
    decreases n,
{
    let m = (n - 1) as nat;
    lemma_minima(results, m);
    lemma_minima(results, n);
    if i < m {
        the_worst_case_counts(results, m, i);
    }
    let r = minimum_recall_of(results, m);
    let p = minimum_precision_of(results, m);
    let last = results[n - 1];
    numbers_are_compared_by_value(0, 0, r, last.recall);
    numbers_are_compared_by_value(0, 0, p, last.precision);
    if i < m {
        if results[i].within_candidate_budget && last.within_candidate_budget {
            lemma_at_most_trans(smaller(r, last.recall), r, results[i].recall);
        }
        lemma_at_most_trans(smaller(p, last.precision), p, results[i].precision);
    }
}

proof fn lemma_minima(results: Seq<CaseResultModel>, n: nat)
    requires
        n <= results.len(),
        forall|k: int|
            0 <= k < results.len() ==> is_number((#[trigger] results[k]).recall) && is_number(
                results[k].precision,
            ),
    ensures
        is_number(minimum_recall_of(results, n)),
        is_number(minimum_precision_of(results, n)),
        minimum_recall_of(results, n) == whole(1) || exists|k: int|
            0 <= k < n && (#[trigger] results[k]).within_candidate_budget && results[k].recall
                == minimum_recall_of(results, n),
        minimum_precision_of(results, n) == whole(1) || exists|k: int|
            0 <= k < n && (#[trigger] results[k]).precision == minimum_precision_of(results, n),
    decreases n,
{
    if n > 0 {
        lemma_minima(results, (n - 1) as nat);
        assert(is_number(results[n - 1].recall));
    }
}

/// A percentile is one of the samples; the smallest at zero and the largest at a hundred, and it
/// grows with the percentage.
pub proof fn percentiles_are_samples(samples: Seq<Ratio>, percent: nat, more: nat)
    requires
        samples.len() > 0,
        forall|i: int| 0 <= i < samples.len() ==> is_number(#[trigger] samples[i]),
        percent <= more <= 100,
    ensures
        samples.contains(percentile_of(samples, percent)),
        at_most(percentile_of(samples, percent), percentile_of(samples, more)),
        forall|i: int|
            0 <= i < samples.len() ==> at_most(
                #[trigger] samples[i],
                percentile_of(samples, 100),
            ) && at_most(percentile_of(samples, 0), samples[i]),
        Seq::<Ratio>::empty().len() == 0 ==> percentile_of(Seq::empty(), percent) == whole(0),
{
    broadcast use vstd::seq_lib::group_to_multiset_ensures;

    let sorted = ascending(samples);
    let n = samples.len() as int;
    numbers_are_sorted(samples);
    ascending_keeps_the_elements(samples, number_order());
    assert(sorted.len() == samples.len());
    let p = ((n - 1) * percent) as int / 100;
    let q = ((n - 1) * more) as int / 100;
    assert(0 <= p <= q <= n - 1) by (nonlinear_arith)
        requires
            n >= 1,
            0 <= percent <= more <= 100,
            p == ((n - 1) * percent) / 100,
            q == ((n - 1) * more) / 100,
    ;
    assert((n - 1) * 100 / 100 == n - 1);
    assert(((n - 1) * 0) / 100 == 0);
    assert(sorted.to_multiset().count(sorted[p]) > 0);
    assert(samples.to_multiset().count(sorted[p]) > 0);
    if p < q {
        assert(at_most(sorted[p], sorted[q]));
    }
    assert(at_most(sorted[p], sorted[p]));
    assert forall|i: int| 0 <= i < samples.len() implies at_most(
        #[trigger] samples[i],
        percentile_of(samples, 100),
    ) && at_most(percentile_of(samples, 0), samples[i]) by {
        assert(samples.to_multiset().count(samples[i]) > 0);
        assert(sorted.to_multiset().count(samples[i]) > 0);
        assert(sorted.contains(samples[i]));
        let k = sorted.index_of(samples[i]);
        if k < n - 1 {
            assert(at_most(sorted[k], sorted[n - 1]));
        }
        if 0 < k {
            assert(at_most(sorted[0], sorted[k]));
        }
    }
}

/// The rank of a percentile is the smallest with at least that share of the samples up to it.
pub proof fn percentiles_are_nearest_ranks(length: nat, percent: nat)
    requires
        0 < length,
        length * 100 <= usize::MAX,
        percent <= 100,
    ensures
        0 <= percentile_position(length, percent) < length,
        (percentile_position(length, percent) + 1) * 100 >= length * percent,
        percentile_position(length, percent) > 0 ==> percentile_position(length, percent) * 100
            < length * percent,
        percentile_position(length, 100) == length - 1,
        percentile_position(length, 0) == 0,
{
    let scaled = length * percent;
    assert(0 <= scaled <= length * 100) by (nonlinear_arith)
        requires
            scaled == length * percent,
            0 <= percent <= 100,
    ;
}

/// A percentile of ordered samples is one of them; of none it is nothing.
pub proof fn reported_percentiles_are_samples(ordered: Seq<Ratio>, percent: nat)
    requires
        ordered.len() * 100 <= usize::MAX,
        percent <= 100,
    ensures
        ordered.len() > 0 ==> ordered.contains(percentile_value_of(ordered, percent)),
        ordered.len() == 0 ==> percentile_value_of(ordered, percent) == whole(0),
        ordered.len() > 0 ==> percentile_value_of(ordered, 100) == ordered.last(),
{
    if ordered.len() > 0 {
        percentiles_are_nearest_ranks(ordered.len(), percent);
    }
}

/// The samples of a run are those of its cases, one case after the other.
pub proof fn samples_of_cases_follow_one_another(results: Seq<CaseResultModel>, n: nat)
    requires
        0 < n <= results.len(),
    ensures
        samples_of(results, n).len() == samples_of(results, (n - 1) as nat).len()
            + results[n - 1].samples.len(),
        samples_of(results, (n - 1) as nat).is_prefix_of(samples_of(results, n)),
        samples_of(results, n).skip(samples_of(results, (n - 1) as nat).len() as int)
            == results[n - 1].samples,
        samples_of(results, 0).len() == 0,
{
    let before = samples_of(results, (n - 1) as nat);
    let all = samples_of(results, n);
    assert(all.skip(before.len() as int) =~= results[n - 1].samples);
    assert(all.take(before.len() as int) =~= before);
}

/// A summary shows the worst recall and precision and two percentiles of all samples.
pub proof fn summaries_show_the_worst(results: Seq<CaseResultModel>)
    ensures
        summary_of(results).minimum_recall == minimum_recall_of(results, results.len()),
        summary_of(results).minimum_precision == minimum_precision_of(results, results.len()),
        summary_of(results).p95 == percentile_of(samples_of(results, results.len()), 95),
        summary_of(results).p99 == percentile_of(samples_of(results, results.len()), 99),
{
}

/// The label of a strategy reads back as the strategy, and no other text does.
pub proof fn labels_read_back(strategy: Strategy, label: Seq<char>)
    ensures
        labelled(strategy_label(strategy)) == Some(strategy),
        labelled(label) == Some(strategy) <==> label == strategy_label(strategy),
{
    reveal_strlit("trigram");
    reveal_strlit("token_prefix_limited_trigram");
    reveal_strlit("bounded_fourgram");
    assert("trigram"@.len() != "token_prefix_limited_trigram"@.len());
    assert("trigram"@.len() != "bounded_fourgram"@.len());
    assert("bounded_fourgram"@.len() != "token_prefix_limited_trigram"@.len());
}

/// Queries are told apart by their length in four bands.
pub proof fn lengths_fall_into_bands(a: nat, b: nat)
    requires
        a > 0,
        b > 0,
    ensures
        band(a) == band(b) <==> a == b || (3 <= a <= 5 && 3 <= b <= 5) || (a >= 6 && b >= 6),
{
    reveal_strlit("1");
    reveal_strlit("2");
    reveal_strlit("3-5");
    reveal_strlit("6+");
    assert("1"@[0] == '1' && "2"@[0] == '2' && "3-5"@[0] == '3' && "6+"@[0] == '6');
}

/// What is rejected and what is kept are all candidates; nothing is rejected of none.
pub proof fn rejected_and_kept_are_all(m: CandidateMetrics)
    requires
        m.verified_count <= m.candidate_count,
        m.candidate_count <= u64::MAX,
    ensures
        is_number(rejection(m)),
        at_most(rejection(m), whole(1)),
        m.candidate_count > 0 ==> rejection(m).numerator + m.verified_count == m.candidate_count
            && rejection(m).denominator == m.candidate_count,
        m.verified_count == m.candidate_count ==> rejection(m).numerator == 0,
{
}

/// A quotient is that of its numbers; by nothing it is nothing.
pub proof fn quotients_are_ratios(a: u64, b: u64)
    ensures
        is_number(quotient(a, b)),
        b > 0 ==> quotient(a, b).numerator == a && quotient(a, b).denominator == b,
        b == 0 ==> quotient(a, b) == whole(0),
{
}

/// Controls are accepted exactly when samples are asked for, the run has an identifier, and the
/// machine is described.
pub proof fn controls_are_complete(options: OptionsModel)
    ensures
        benchmark_refusal(options) is None <==> {
            &&& options.samples_per_cell > 0
            &&& crate::search::error::is_identifier(options.run_id)
            &&& options.memory_bytes > 0
            &&& options.storage.len() > 0
            &&& options.power.len() > 0
        },
{
}

} // verus!
