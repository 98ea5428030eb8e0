//! The true hits of the recall workload, and what is measured of it.

use vstd::prelude::*;

use crate::decimal::{decimal, write_decimal};
use crate::search::error::{
    is_identifier, valid_identifier, ExperimentError, ExperimentErrorModel, ExperimentResult,
};
use crate::search::measure::{
    append_measurements, ascending, in_millis, measurement, measurement_models, plain,
    push_measurement, smaller, sort_ascending, whole, Dimensions, DimensionsModel, Measurement,
    MeasurementModel, Quantity, Ratio,
};
use crate::search::normalize::{normalize_search_text, normalized};
use crate::search::outcome::SearchOutcome;
use crate::search::policy::{refusal, CandidatePolicy, QueryMode};
use crate::search::ranking::{contains_text, occurs, CatalogRecord, RankedHit};
use crate::search::retrieval::{strategy_label, Strategy};
use crate::search::workload::{CaseModel, RecallCase};
use crate::text::{in_a_row, texts};

verus! {

/// The name of the record contains the normalized query.
pub open spec fn names_query(record: CatalogRecord, query: Seq<char>) -> bool {
    occurs(normalized(record.name@), query)
}

/// One of the first `n` records has the ordinal, and its name contains the normalized query.
pub open spec fn is_true_hit(
    records: Seq<CatalogRecord>,
    n: int,
    query: Seq<char>,
    ordinal: u64,
) -> bool {
    exists|i: int|
        0 <= i < n && (#[trigger] records[i]).ordinal == ordinal && names_query(records[i], query)
}

/// Each number is smaller than the next ones.
pub open spec fn strictly_ascending(values: Seq<u64>) -> bool {
    forall|i: int, j: int| 0 <= i < j < values.len() ==> values[i] < values[j]
}

/// The ordinals of the records, among the first `n`, whose name contains the normalized query,
/// each once and in ascending order.
pub open spec fn is_truth(
    ordinals: Seq<u64>,
    records: Seq<CatalogRecord>,
    n: int,
    query: Seq<char>,
) -> bool {
    &&& strictly_ascending(ordinals)
    &&& forall|ordinal: u64| #[trigger]
        ordinals.contains(ordinal) <==> is_true_hit(records, n, query, ordinal)
}

fn insert_ordinal(ordinals: &mut Vec<u64>, ordinal: u64)
    requires
        strictly_ascending(old(ordinals)@),
    ensures
        strictly_ascending(final(ordinals)@),
        forall|x: u64| #[trigger]
            final(ordinals)@.contains(x) <==> (x == ordinal || old(ordinals)@.contains(x)),
{
    let mut at: usize = ordinals.len();
    while at > 0 && ordinals[at - 1] > ordinal
        invariant
            at <= ordinals@.len(),
            forall|i: int| at <= i < ordinals@.len() ==> #[trigger] ordinals@[i] > ordinal,
        decreases at,
    {
        at = at - 1;
    }
    if at > 0 && ordinals[at - 1] == ordinal {
        assert(old(ordinals)@.contains(ordinal));
        return;
    }
    ordinals.insert(at, ordinal);
    proof {
        let before = old(ordinals)@;
        let after = ordinals@;
        assert forall|x: u64| #[trigger] after.contains(x) <==> (x == ordinal || before.contains(
            x,
        )) by {
            if before.contains(x) {
                let k = before.index_of(x);
                if k < at {
                    assert(after[k] == x);
                } else {
                    assert(after[k + 1] == x);
                }
            }
            if x == ordinal {
                assert(after[at as int] == x);
            }
            if after.contains(x) && x != ordinal {
                let k = after.index_of(x);
                if k < at {
                    assert(before[k] == x);
                } else {
                    assert(before[k - 1] == x);
                }
            }
        }
    }
}

fn normalized_names(records: &Vec<CatalogRecord>) -> (r: Vec<String>)
    ensures
        r@.len() == records@.len(),
        forall|i: int|
            0 <= i < records@.len() ==> (#[trigger] r@[i])@ == normalized(records@[i].name@),
{
    let mut r: Vec<String> = Vec::new();
    let mut i: usize = 0;
    while i < records.len()
        invariant
            i <= records@.len(),
            r@.len() == i,
            forall|k: int| 0 <= k < i ==> (#[trigger] r@[k])@ == normalized(records@[k].name@),
        decreases records@.len() - i,
    {
        r.push(normalize_search_text(records[i].name.as_str()));
        i = i + 1;
    }
    r
}

fn truth_of(records: &Vec<CatalogRecord>, names: &Vec<String>, query: &str) -> (r: Vec<u64>)
    requires
        names@.len() == records@.len(),
        forall|i: int|
            0 <= i < records@.len() ==> (#[trigger] names@[i])@ == normalized(records@[i].name@),
    ensures
        is_truth(r@, records@, records@.len() as int, query@),
{
    let mut r: Vec<u64> = Vec::new();
    let mut i: usize = 0;
    while i < records.len()
        invariant
            i <= records@.len(),
            names@.len() == records@.len(),
            forall|k: int|
                0 <= k < records@.len() ==> (#[trigger] names@[k])@ == normalized(
                    records@[k].name@,
                ),
            is_truth(r@, records@, i as int, query@),
        decreases records@.len() - i,
    {
        let ghost before = r@;
        let holds = contains_text(names[i].as_str(), query);
        if holds {
            insert_ordinal(&mut r, records[i].ordinal);
        }
        proof {
            assert(holds == names_query(records@[i as int], query@));
            assert forall|ordinal: u64| #[trigger] r@.contains(ordinal) <==> is_true_hit(
                records@,
                i + 1,
                query@,
                ordinal,
            ) by {
                assert(before.contains(ordinal) <==> is_true_hit(
                    records@,
                    i as int,
                    query@,
                    ordinal,
                ));
                if holds && ordinal == records@[i as int].ordinal {
                    assert(is_true_hit(records@, i + 1, query@, ordinal));
                }
                if is_true_hit(records@, i as int, query@, ordinal) {
                    assert(is_true_hit(records@, i + 1, query@, ordinal));
                }
            }
        }
        i = i + 1;
    }
    r
}

/// The true hits of every case, found by looking at every name.
pub fn ground_truth(records: &Vec<CatalogRecord>, cases: &Vec<RecallCase>) -> (r: Vec<Vec<u64>>)
    ensures
        r@.len() == cases@.len(),
        forall|c: int|
            0 <= c < cases@.len() ==> is_truth(
                (#[trigger] r@[c])@,
                records@,
                records@.len() as int,
                normalized(cases@[c].query@),
            ),
{
    let names = normalized_names(records);
    let mut r: Vec<Vec<u64>> = Vec::new();
    let mut c: usize = 0;
    while c < cases.len()
        invariant
            c <= cases@.len(),
            names@.len() == records@.len(),
            forall|k: int|
                0 <= k < records@.len() ==> (#[trigger] names@[k])@ == normalized(
                    records@[k].name@,
                ),
            r@.len() == c,
            forall|k: int|
                0 <= k < c ==> is_truth(
                    (#[trigger] r@[k])@,
                    records@,
                    records@.len() as int,
                    normalized(cases@[k].query@),
                ),
        decreases cases@.len() - c,
    {
        let query = normalize_search_text(cases[c].query.as_str());
        r.push(truth_of(records, &names, query.as_str()));
        c = c + 1;
    }
    r
}

/// What was measured of one case.
#[derive(Clone, Debug, PartialEq, Eq)]
pub struct CaseResult {
    /// The case.
    pub case: RecallCase,
    /// True hits.
    pub ground_truth: usize,
    /// Most hits returned.
    pub returned: usize,
    /// Most candidates retrieved.
    pub candidate_count: usize,
    /// Whether the true hits fit the candidate limit.
    pub within_candidate_budget: bool,
    /// Smallest share of the true hits that was returned.
    pub recall: Ratio,
    /// Smallest share of the returned hits that contain the query in the name.
    pub precision: Ratio,
    /// Times of the searches.
    pub samples: Vec<Ratio>,
}

/// A result as a mathematical value.
pub struct CaseResultModel {
    pub case: CaseModel,
    pub ground_truth: nat,
    pub returned: nat,
    pub candidate_count: nat,
    pub within_candidate_budget: bool,
    pub recall: Ratio,
    pub precision: Ratio,
    pub samples: Seq<Ratio>,
}

impl View for CaseResult {
    type V = CaseResultModel;

    open spec fn view(&self) -> CaseResultModel {
        CaseResultModel {
            case: self.case@,
            ground_truth: self.ground_truth as nat,
            returned: self.returned as nat,
            candidate_count: self.candidate_count as nat,
            within_candidate_budget: self.within_candidate_budget,
            recall: self.recall,
            precision: self.precision,
            samples: self.samples@,
        }
    }
}

/// A hit has the ordinal.
pub open spec fn is_returned(hits: Seq<RankedHit>, ordinal: u64) -> bool {
    exists|i: int| 0 <= i < hits.len() && (#[trigger] hits[i]).ordinal == ordinal
}

/// How many of the first `n` true hits were returned.
pub open spec fn found(expected: Seq<u64>, hits: Seq<RankedHit>, n: nat) -> nat
    decreases n,
{
    if n == 0 {
        0
    } else {
        found(expected, hits, (n - 1) as nat) + (if is_returned(hits, expected[n - 1]) {
            1nat
        } else {
            0nat
        })
    }
}

/// How many of the first `n` hits contain the normalized query in the name.
pub open spec fn naming(hits: Seq<RankedHit>, query: Seq<char>, n: nat) -> nat
    decreases n,
{
    if n == 0 {
        0
    } else {
        naming(hits, query, (n - 1) as nat) + (if occurs(normalized(hits[n - 1].name@), query) {
            1nat
        } else {
            0nat
        })
    }
}

/// The share of the true hits that was returned; all of none.
pub open spec fn sample_recall(expected: Seq<u64>, hits: Seq<RankedHit>) -> Ratio {
    if expected.len() == 0 {
        whole(1)
    } else {
        Ratio {
            numerator: found(expected, hits, expected.len()) as u64,
            denominator: expected.len() as u64,
        }
    }
}

/// The share of the returned hits that contain the normalized query in the name. With no hits
/// it is everything if there are no true hits either, else nothing.
pub open spec fn sample_precision(
    expected: Seq<u64>,
    hits: Seq<RankedHit>,
    query: Seq<char>,
) -> Ratio {
    if hits.len() == 0 {
        if expected.len() == 0 {
            whole(1)
        } else {
            whole(0)
        }
    } else {
        Ratio {
            numerator: naming(hits, query, hits.len()) as u64,
            denominator: hits.len() as u64,
        }
    }
}

/// The larger of two numbers.
pub open spec fn larger(a: nat, b: nat) -> nat {
    if a < b {
        b
    } else {
        a
    }
}

/// The result of a case before the first sample.
pub open spec fn unmeasured(case: CaseModel, expected: nat, limit: nat) -> CaseResultModel {
    CaseResultModel {
        case,
        ground_truth: expected,
        returned: 0,
        candidate_count: 0,
        within_candidate_budget: expected <= limit,
        recall: whole(1),
        precision: whole(1),
        samples: Seq::empty(),
    }
}

/// The result of a case with one more sample.
pub open spec fn sampled(
    m: CaseResultModel,
    expected: Seq<u64>,
    hits: Seq<RankedHit>,
    candidate_count: nat,
    end_to_end_ns: u64,
) -> CaseResultModel {
    CaseResultModel {
        returned: larger(m.returned, hits.len()),
        candidate_count: larger(m.candidate_count, candidate_count),
        recall: smaller(m.recall, sample_recall(expected, hits)),
        precision: smaller(
            m.precision,
            sample_precision(expected, hits, normalized(m.case.query)),
        ),
        samples: m.samples.push(in_millis(end_to_end_ns)),
        ..m
    }
}

fn count_found(expected: &Vec<u64>, hits: &Vec<RankedHit>) -> (r: usize)
    ensures
        r == found(expected@, hits@, expected@.len()),
        r <= expected@.len(),
{
    let mut n: usize = 0;
    let mut count: usize = 0;
    while n < expected.len()
        invariant
            n <= expected@.len(),
            count <= n,
            count == found(expected@, hits@, n as nat),
        decreases expected@.len() - n,
    {
        let wanted: u64 = expected[n];
        let mut i: usize = 0;
        let mut seen = false;
        while i < hits.len() && !seen
            invariant
                i <= hits@.len(),
                !seen ==> forall|k: int| 0 <= k < i ==> (#[trigger] hits@[k]).ordinal != wanted,
                seen ==> is_returned(hits@, wanted),
            decreases hits@.len() - i,
        {
            if hits[i].ordinal == wanted {
                seen = true;
                assert(hits@[i as int].ordinal == wanted);
            }
            i = i + 1;
        }
        if seen {
            count = count + 1;
        }
        n = n + 1;
    }
    count
}

fn count_naming(hits: &Vec<RankedHit>, query: &str) -> (r: usize)
    ensures
        r == naming(hits@, query@, hits@.len()),
        r <= hits@.len(),
{
    let mut n: usize = 0;
    let mut count: usize = 0;
    while n < hits.len()
        invariant
            n <= hits@.len(),
            count <= n,
            count == naming(hits@, query@, n as nat),
        decreases hits@.len() - n,
    {
        if contains_text(normalize_search_text(hits[n].name.as_str()).as_str(), query) {
            count = count + 1;
        }
        n = n + 1;
    }
    count
}

impl CaseResult {
    /// The result of a case before the first sample.
    pub fn begin(case: &RecallCase, expected: &Vec<u64>, candidate_limit: usize) -> (r: CaseResult)
        ensures
            r@ == unmeasured(case@, expected@.len(), candidate_limit as nat),
    {
        CaseResult {
            case: case.duplicate(),
            ground_truth: expected.len(),
            returned: 0,
            candidate_count: 0,
            within_candidate_budget: expected.len() <= candidate_limit,
            recall: Ratio::of_count(1),
            precision: Ratio::of_count(1),
            samples: Vec::new(),
        }
    }

    /// Takes the outcome of one search.
    pub fn record(&mut self, expected: &Vec<u64>, outcome: &SearchOutcome)
        ensures
            final(self)@ == sampled(
                old(self)@,
                expected@,
                outcome.hits@,
                outcome.metrics.candidate_count as nat,
                outcome.metrics.end_to_end_ns,
            ),
    {
        let query = normalize_search_text(self.case.query.as_str());
        self.samples.push(Ratio::of_nanoseconds(outcome.metrics.end_to_end_ns));
        if self.candidate_count < outcome.metrics.candidate_count {
            self.candidate_count = outcome.metrics.candidate_count;
        }
        if self.returned < outcome.hits.len() {
            self.returned = outcome.hits.len();
        }
        let recall = if expected.len() == 0 {
            Ratio::of_count(1)
        } else {
            Ratio {
                numerator: count_found(expected, &outcome.hits) as u64,
                denominator: expected.len() as u64,
            }
        };
        let precision = if outcome.hits.len() == 0 {
            if expected.len() == 0 {
                Ratio::of_count(1)
            } else {
                Ratio::of_count(0)
            }
        } else {
            Ratio {
                numerator: count_naming(&outcome.hits, query.as_str()) as u64,
                denominator: outcome.hits.len() as u64,
            }
        };
        self.recall = self.recall.min(recall);
        self.precision = self.precision.min(precision);
    }
}

/// The views of several results.
pub open spec fn result_models(results: Seq<CaseResult>) -> Seq<CaseResultModel> {
    Seq::new(results.len(), |i: int| results[i]@)
}

/// The smallest recall among the first `n` cases that fit the candidate limit; all of none.
pub open spec fn minimum_recall_of(results: Seq<CaseResultModel>, n: nat) -> Ratio
    decreases n,
{
    if n == 0 {
        whole(1)
    } else {
        let before = minimum_recall_of(results, (n - 1) as nat);
        if results[n - 1].within_candidate_budget {
            smaller(before, results[n - 1].recall)
        } else {
            before
        }
    }
}

/// The smallest precision among the first `n` cases; all of none.
pub open spec fn minimum_precision_of(results: Seq<CaseResultModel>, n: nat) -> Ratio
    decreases n,
{
    if n == 0 {
        whole(1)
    } else {
        smaller(minimum_precision_of(results, (n - 1) as nat), results[n - 1].precision)
    }
}

/// The samples of the first `n` cases, in order.
pub open spec fn samples_of(results: Seq<CaseResultModel>, n: nat) -> Seq<Ratio>
    decreases n,
{
    if n == 0 {
        Seq::empty()
    } else {
        samples_of(results, (n - 1) as nat) + results[n - 1].samples
    }
}

/// The sample that a percentage of the others does not exceed; nothing of none.
pub open spec fn percentile_of(samples: Seq<Ratio>, percent: nat) -> Ratio {
    if samples.len() == 0 {
        whole(0)
    } else {
        ascending(samples)[((samples.len() - 1) * percent) as int / 100]
    }
}

/// The sample that a percentage of the others does not exceed.
pub fn percentile(samples: &Vec<Ratio>, percent: usize) -> (r: Ratio)
    requires
        percent <= 100,
        samples@.len() * percent <= usize::MAX,
    ensures
        r == percentile_of(samples@, percent as nat),
{
    if samples.len() == 0 {
        return Ratio::of_count(0);
    }
    let ordered = sort_ascending(samples);
    let last: usize = samples.len() - 1;
    proof {
        let (n, p) = (samples@.len() as int, percent as int);
        assert(0 <= (n - 1) * p <= n * p) by (nonlinear_arith)
            requires
                n >= 1,
                0 <= p,
        ;
        assert((n - 1) * p <= (n - 1) * 100) by (nonlinear_arith)
            requires
                n >= 1,
                0 <= p <= 100,
        ;
        assert(last * percent == (n - 1) * p);
    }
    let position: usize = last * percent / 100;
    ordered[position]
}

/// What is said of all cases together.
#[derive(Clone, Copy, Debug, PartialEq, Eq, Structural)]
pub struct RecallSummary {
    /// Smallest recall of a case that fits the candidate limit.
    pub minimum_recall: Ratio,
    /// Smallest precision.
    pub minimum_precision: Ratio,
    /// Time that nineteen in twenty searches do not exceed.
    pub p95: Ratio,
    /// Time that ninety-nine in a hundred searches do not exceed.
    pub p99: Ratio,
}

/// What is said of all cases together.
pub open spec fn summary_of(results: Seq<CaseResultModel>) -> RecallSummary {
    let samples = samples_of(results, results.len());
    RecallSummary {
        minimum_recall: minimum_recall_of(results, results.len()),
        minimum_precision: minimum_precision_of(results, results.len()),
        p95: percentile_of(samples, 95),
        p99: percentile_of(samples, 99),
    }
}

/// The samples fit a list of which percentages can be taken.
pub open spec fn countable(results: Seq<CaseResultModel>) -> bool {
    samples_of(results, results.len()).len() * 99 <= usize::MAX
}

proof fn lemma_samples_monotonic(results: Seq<CaseResultModel>, n: nat, m: nat)
    requires
        n <= m <= results.len(),
    ensures
        samples_of(results, n).len() <= samples_of(results, m).len(),
    decreases m,
{
    if n < m {
        lemma_samples_monotonic(results, n, (m - 1) as nat);
    }
}

fn all_samples(results: &Vec<CaseResult>) -> (r: Vec<Ratio>)
    ensures
        r@ == samples_of(result_models(results@), results@.len()),
{
    let ghost models = result_models(results@);
    let mut r: Vec<Ratio> = Vec::new();
    let mut i: usize = 0;
    while i < results.len()
        invariant
            i <= results@.len(),
            models == result_models(results@),
            r@ == samples_of(models, i as nat),
        decreases results@.len() - i,
    {
        let ghost before = r@;
        let samples = &results[i].samples;
        let mut k: usize = 0;
        while k < samples.len()
            invariant
                k <= samples@.len(),
                r@ == before + samples@.take(k as int),
            decreases samples@.len() - k,
        {
            r.push(samples[k]);
            k = k + 1;
            assert(r@ =~= before + samples@.take(k as int));
        }
        assert(samples@.take(k as int) =~= samples@);
        assert(models[i as int].samples == samples@);
        i = i + 1;
    }
    r
}

/// What is said of all cases together.
pub fn summarize(results: &Vec<CaseResult>) -> (r: RecallSummary)
    requires
        countable(result_models(results@)),
    ensures
        r == summary_of(result_models(results@)),
{
    let ghost models = result_models(results@);
    let mut minimum_recall = Ratio::of_count(1);
    let mut minimum_precision = Ratio::of_count(1);
    let mut i: usize = 0;
    while i < results.len()
        invariant
            i <= results@.len(),
            models == result_models(results@),
            minimum_recall == minimum_recall_of(models, i as nat),
            minimum_precision == minimum_precision_of(models, i as nat),
        decreases results@.len() - i,
    {
        let result = &results[i];
        assert(models[i as int] == result@);
        if result.within_candidate_budget {
            minimum_recall = minimum_recall.min(result.recall);
        }
        minimum_precision = minimum_precision.min(result.precision);
        i = i + 1;
    }
    let samples = all_samples(results);
    let p95 = percentile(&samples, 95);
    let p99 = percentile(&samples, 99);
    RecallSummary { minimum_recall, minimum_precision, p95, p99 }
}

/// Dimensions that name the strategy alone.
pub open spec fn strategy_dimensions(strategy: Strategy) -> DimensionsModel {
    DimensionsModel {
        strategy,
        query_length_band: None,
        frequency: None,
        query: None,
        case: None,
        category: None,
        within_candidate_budget: None,
    }
}

/// Dimensions that name the strategy and the case.
pub open spec fn case_dimensions(strategy: Strategy, result: CaseResultModel) -> DimensionsModel {
    DimensionsModel {
        strategy,
        query_length_band: None,
        frequency: Some(result.case.frequency),
        query: Some(result.case.query),
        case: Some(result.case.id),
        category: Some(result.case.category),
        within_candidate_budget: Some(result.within_candidate_budget),
    }
}

/// The measurements of one case.
pub open spec fn case_measurements(strategy: Strategy, result: CaseResultModel) -> Seq<
    MeasurementModel,
> {
    let dimensions = case_dimensions(strategy, result);
    seq![
        plain("candidate_recall"@, "ratio"@, Quantity::Number(result.recall), dimensions),
        plain("final_precision"@, "ratio"@, Quantity::Number(result.precision), dimensions),
        plain(
            "ground_truth"@,
            "count"@,
            Quantity::Number(whole(result.ground_truth as u64)),
            dimensions,
        ),
        plain("returned"@, "count"@, Quantity::Number(whole(result.returned as u64)), dimensions),
        plain(
            "candidate_count"@,
            "count"@,
            Quantity::Number(whole(result.candidate_count as u64)),
            dimensions,
        ),
        plain(
            "case_end_to_end_p95"@,
            "milliseconds"@,
            Quantity::Number(percentile_of(result.samples, 95)),
            dimensions,
        ),
        plain(
            "case_end_to_end_p99"@,
            "milliseconds"@,
            Quantity::Number(percentile_of(result.samples, 99)),
            dimensions,
        ),
    ]
}

/// The measurements of the first `n` cases.
pub open spec fn cases_measurements(
    strategy: Strategy,
    results: Seq<CaseResultModel>,
    n: nat,
) -> Seq<MeasurementModel>
    decreases n,
{
    if n == 0 {
        Seq::empty()
    } else {
        cases_measurements(strategy, results, (n - 1) as nat) + case_measurements(
            strategy,
            results[n - 1],
        )
    }
}

/// The measurements of a strategy: the size of the index, its ratio to a base index where one is
/// known, the summary of all cases, then each case.
pub open spec fn recall_measurements(
    strategy: Strategy,
    results: Seq<CaseResultModel>,
    index_bytes: u64,
    baseline_index_bytes: u64,
) -> Seq<MeasurementModel> {
    let dimensions = strategy_dimensions(strategy);
    let summary = summary_of(results);
    let size = plain("index_size"@, "bytes"@, Quantity::Number(whole(index_bytes)), dimensions);
    let head = if baseline_index_bytes > 0 {
        seq![
            size,
            plain(
                "catalog_amplification"@,
                "ratio"@,
                Quantity::Number(
                    Ratio { numerator: index_bytes, denominator: baseline_index_bytes },
                ),
                dimensions,
            ),
        ]
    } else {
        seq![size]
    };
    head + seq![
        plain(
            "minimum_candidate_recall"@,
            "ratio"@,
            Quantity::Number(summary.minimum_recall),
            dimensions,
        ),
        plain(
            "minimum_final_precision"@,
            "ratio"@,
            Quantity::Number(summary.minimum_precision),
            dimensions,
        ),
        MeasurementModel {
            samples: Some(samples_of(results, results.len())),
            ..plain(
                "end_to_end_p95"@,
                "milliseconds"@,
                Quantity::Number(summary.p95),
                dimensions,
            )
        },
        plain("end_to_end_p99"@, "milliseconds"@, Quantity::Number(summary.p99), dimensions),
    ] + cases_measurements(strategy, results, results.len())
}

fn measure_case(strategy: Strategy, result: &CaseResult) -> (r: Vec<Measurement>)
    requires
        result.samples@.len() * 99 <= usize::MAX,
    ensures
        measurement_models(r@) == case_measurements(strategy, result@),
{
    let dimensions = Dimensions {
        strategy,
        query_length_band: None,
        frequency: Some(result.case.frequency.to_owned()),
        query: Some(result.case.query.clone()),
        case: Some(result.case.id.to_owned()),
        category: Some(result.case.category.to_owned()),
        within_candidate_budget: Some(result.within_candidate_budget),
    };
    let truth = Quantity::Number(Ratio::of_count(result.ground_truth as u64));
    let returned = Quantity::Number(Ratio::of_count(result.returned as u64));
    let candidates = Quantity::Number(Ratio::of_count(result.candidate_count as u64));
    let p95 = Quantity::Number(percentile(&result.samples, 95));
    let p99 = Quantity::Number(percentile(&result.samples, 99));
    let r = vec![
        measurement("candidate_recall", "ratio", Quantity::Number(result.recall), &dimensions),
        measurement("final_precision", "ratio", Quantity::Number(result.precision), &dimensions),
        measurement("ground_truth", "count", truth, &dimensions),
        measurement("returned", "count", returned, &dimensions),
        measurement("candidate_count", "count", candidates, &dimensions),
        measurement("case_end_to_end_p95", "milliseconds", p95, &dimensions),
        measurement("case_end_to_end_p99", "milliseconds", p99, &dimensions),
    ];
    assert(measurement_models(r@) =~= case_measurements(strategy, result@));
    r
}

/// The measurements of a strategy.
pub fn measurements(
    strategy: Strategy,
    results: &Vec<CaseResult>,
    index_bytes: u64,
    baseline_index_bytes: u64,
) -> (r: Vec<Measurement>)
    requires
        countable(result_models(results@)),
    ensures
        measurement_models(r@) == recall_measurements(
            strategy,
            result_models(results@),
            index_bytes,
            baseline_index_bytes,
        ),
{
    let ghost models = result_models(results@);
    let dimensions = Dimensions {
        strategy,
        query_length_band: None,
        frequency: None,
        query: None,
        case: None,
        category: None,
        within_candidate_budget: None,
    };
    let mut values: Vec<Measurement> = Vec::new();
    assert(measurement_models(values@) =~= Seq::empty());
    push_measurement(
        &mut values,
        measurement(
            "index_size",
            "bytes",
            Quantity::Number(Ratio::of_count(index_bytes)),
            &dimensions,
        ),
    );
    if baseline_index_bytes > 0 {
        let growth = Ratio { numerator: index_bytes, denominator: baseline_index_bytes };
        push_measurement(
            &mut values,
            measurement("catalog_amplification", "ratio", Quantity::Number(growth), &dimensions),
        );
    }
    let summary = summarize(results);
    push_measurement(
        &mut values,
        measurement(
            "minimum_candidate_recall",
            "ratio",
            Quantity::Number(summary.minimum_recall),
            &dimensions,
        ),
    );
    push_measurement(
        &mut values,
        measurement(
            "minimum_final_precision",
            "ratio",
            Quantity::Number(summary.minimum_precision),
            &dimensions,
        ),
    );
    let mut p95 = measurement(
        "end_to_end_p95",
        "milliseconds",
        Quantity::Number(summary.p95),
        &dimensions,
    );
    p95.samples = Some(all_samples(results));
    push_measurement(&mut values, p95);
    push_measurement(
        &mut values,
        measurement(
            "end_to_end_p99",
            "milliseconds",
            Quantity::Number(summary.p99),
            &dimensions,
        ),
    );
    let ghost head = measurement_models(values@);
    let mut i: usize = 0;
    while i < results.len()
        invariant
            i <= results@.len(),
            models == result_models(results@),
            countable(models),
            measurement_models(values@) =~= head + cases_measurements(strategy, models, i as nat),
        decreases results@.len() - i,
    {
        proof {
            assert(models[i as int] == results@[i as int]@);
            lemma_samples_monotonic(models, (i + 1) as nat, models.len());
        }
        append_measurements(&mut values, measure_case(strategy, &results[i]));
        i = i + 1;
    }
    assert(measurement_models(values@) =~= recall_measurements(
        strategy,
        models,
        index_bytes,
        baseline_index_bytes,
    ));
    values
}

/// Controls of the recall benchmark.
#[derive(Clone, Debug, PartialEq, Eq)]
pub struct RecallBenchmarkOptions {
    /// Identifier of the run.
    pub run_id: String,
    /// Records before the controlled ones.
    pub records: u64,
    /// Seed of the generator.
    pub seed: u64,
    /// Measured searches of each case.
    pub samples_per_case: usize,
    /// Memory of the index writer.
    pub writer_heap_bytes: usize,
    /// Candidates that may be looked at.
    pub candidate_limit: usize,
    /// Names that hold the grams of a query but not the query.
    pub pressure_false_candidates: usize,
    /// Bytes of a base index, or zero.
    pub baseline_index_bytes: u64,
    /// Directory of the reports.
    pub output_directory: String,
    /// Strategies to measure; all if empty.
    pub strategies: Vec<Strategy>,
    /// Memory of the machine.
    pub memory_bytes: u64,
    /// Storage of the machine.
    pub storage: String,
    /// Power supply of the machine.
    pub power: String,
}

/// Why the controls are refused; nothing if they are not.
pub open spec fn recall_refusal(options: RecallBenchmarkOptions) -> Option<ExperimentErrorModel> {
    if options.samples_per_case == 0 || options.memory_bytes == 0 || options.storage@.len() == 0
        || options.power@.len() == 0 || !is_identifier(options.run_id@) {
        Some(ExperimentErrorModel::InvalidDocument("recall benchmark options"@))
    } else {
        match refusal(options.candidate_limit, 3, QueryMode::SubstringOnly) {
            Some(error) => Some(ExperimentErrorModel::Policy(error)),
            None => None,
        }
    }
}

/// Checks the controls: every text and count is given, the identifier is one, and a substring
/// query may be planned with the candidate limit.
pub fn validate_options(options: &RecallBenchmarkOptions) -> (r: ExperimentResult<()>)
    ensures
        match r {
            Ok(()) => recall_refusal(*options) is None,
            Err(error) => recall_refusal(*options) == Some(error@),
        },
{
    if options.samples_per_case == 0 || options.memory_bytes == 0
        || options.storage.as_str().is_empty() || options.power.as_str().is_empty()
        || !valid_identifier(options.run_id.as_str()) {
        return Err(ExperimentError::InvalidDocument("recall benchmark options"));
    }
    proof {
        reveal_strlit("abc");
    }
    let policy = CandidatePolicy { candidate_limit: options.candidate_limit };
    match policy.plan_normalized("abc".to_owned(), QueryMode::SubstringOnly) {
        Ok(_) => Ok(()),
        Err(error) => Err(ExperimentError::Policy(error)),
    }
}

/// The name of the reports of a strategy, without extension.
pub fn recall_stem(strategy: Strategy, records: u64, run_id: &str) -> (r: String)
    ensures
        r@ == "start-003-r-"@ + strategy_label(strategy) + "-"@ + decimal(records as nat) + "-"@
            + run_id@,
{
    let mut r = in_a_row("start-003-r-", strategy.label(), "-");
    r.append(write_decimal(records).as_str());
    r.append("-");
    r.append(run_id);
    r
}

/// A search that returns all true hits has full recall.
pub proof fn full_answers_have_full_recall(expected: Seq<u64>, hits: Seq<RankedHit>)
    requires
        forall|i: int| 0 <= i < expected.len() ==> is_returned(hits, #[trigger] expected[i]),
        expected.len() <= u64::MAX,
    ensures
        sample_recall(expected, hits).numerator == sample_recall(expected, hits).denominator,
{
    lemma_found_all(expected, hits, expected.len());
}

proof fn lemma_found_all(expected: Seq<u64>, hits: Seq<RankedHit>, n: nat)
    requires
        n <= expected.len(),
        forall|i: int| 0 <= i < expected.len() ==> is_returned(hits, #[trigger] expected[i]),
    ensures
        found(expected, hits, n) == n,
    decreases n,
{
    if n > 0 {
        lemma_found_all(expected, hits, (n - 1) as nat);
        assert(is_returned(hits, expected[n - 1]));
    }
}

/// What a reader of the recall report has to know.
pub fn recall_notes() -> (r: Vec<String>)
    ensures
        texts(r@) == seq![
            "Ground truth is computed by scanning every normalized filename in the combined dataset."@,
            "Recall acceptance applies only when the ground-truth cardinality fits the configured candidate budget."@,
            "One/two-character queries are excluded from the substring contract."@,
            "Exact normalized verification remains mandatory after positional candidate retrieval."@,
        ],
{
    let r = vec![
        "Ground truth is computed by scanning every normalized filename in the combined dataset.".to_owned(),
        "Recall acceptance applies only when the ground-truth cardinality fits the configured candidate budget.".to_owned(),
        "One/two-character queries are excluded from the substring contract.".to_owned(),
        "Exact normalized verification remains mandatory after positional candidate retrieval.".to_owned(),
    ];
    assert(texts(r@) =~= seq![
            "Ground truth is computed by scanning every normalized filename in the combined dataset."@,
            "Recall acceptance applies only when the ground-truth cardinality fits the configured candidate budget."@,
            "One/two-character queries are excluded from the substring contract."@,
            "Exact normalized verification remains mandatory after positional candidate retrieval."@,
    ]);
    r
}

} // verus!
