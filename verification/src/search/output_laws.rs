//! Laws of the benchmarks: their options, what they expect and what they report.

use vstd::prelude::*;

use crate::decimal::parsed;
use crate::search::error::ExperimentErrorModel;
use crate::search::measure::{
    ascending, at_most, in_millis, is_number, number_order, numbers_are_sorted, whole,
    MeasurementModel, Quantity, Ratio,
};
use crate::search::normalize::normalized;
use crate::search::outcome::{quotient, BuildMetrics, CandidateMetrics};
use crate::search::ranking::{occurs, CatalogRecord};
use crate::search::recall::{
    case_measurements, cases_measurements, is_true_hit, is_truth, percentile_of,
    recall_measurements, summary_of, CaseResultModel,
};
use crate::search::report::{
    build_measurement_models, cell_measurements, default_options, distribution, labelled,
    percentile_value_of, with_arguments, with_flag, CellModel, OptionsModel,
};
use crate::search::report_laws::reported_percentiles_are_samples;
use crate::search::retrieval::Strategy;
use crate::sorting::ascending_keeps_the_elements;

verus! {

/// A record counts for the truth exactly where its normalized name contains the query; each record
/// is looked at.
pub proof fn every_record_counts_for_the_truth(
    records: Seq<CatalogRecord>,
    n: int,
    query: Seq<char>,
    ordinal: u64,
    truth: Seq<u64>,
)
    requires
        0 <= n < records.len(),
        is_truth(truth, records, n + 1, query),
    ensures
        is_true_hit(records, n + 1, query, ordinal) <==> is_true_hit(records, n, query, ordinal) || (
        records[n].ordinal == ordinal && occurs(normalized(records[n].name@), query)),
        !is_true_hit(records, 0, query, ordinal),
        occurs(normalized(records[n].name@), query) ==> truth.contains(records[n].ordinal),
        forall|i: int, j: int| 0 <= i < j < truth.len() ==> truth[i] < truth[j],
{
    if is_true_hit(records, n + 1, query, ordinal) {
        let i = choose|i: int|
            0 <= i < n + 1 && (#[trigger] records[i]).ordinal == ordinal
                && crate::search::recall::names_query(records[i], query);
        if i < n {
            assert(records[i].ordinal == ordinal);
        }
    }
    if is_true_hit(records, n, query, ordinal) {
        let i = choose|i: int|
            0 <= i < n && (#[trigger] records[i]).ordinal == ordinal
                && crate::search::recall::names_query(records[i], query);
        assert(records[i].ordinal == ordinal);
    }
    if occurs(normalized(records[n].name@), query) {
        assert(is_true_hit(records, n + 1, query, records[n].ordinal));
    }
}

/// A value is reported under a name, and nothing else is.
pub open spec fn reports_value(
    all: Seq<MeasurementModel>,
    name: Seq<char>,
    value: Quantity,
) -> bool {
    &&& exists|i: int| 0 <= i < all.len() && (#[trigger] all[i]).name == name
    &&& forall|i: int| 0 <= i < all.len() && (#[trigger] all[i]).name == name ==> all[i].value == value
}

proof fn lemma_case_names()
    ensures
        "candidate_recall"@.len() == 16,
        "final_precision"@.len() == 15,
        "ground_truth"@.len() == 12,
        "returned"@.len() == 8,
        "candidate_count"@.len() == 15,
        "case_end_to_end_p95"@.len() == 19,
        "case_end_to_end_p99"@.len() == 19,
        "final_precision"@ != "candidate_count"@,
        "case_end_to_end_p95"@ != "case_end_to_end_p99"@,
{
    reveal_strlit("candidate_recall");
    reveal_strlit("final_precision");
    reveal_strlit("ground_truth");
    reveal_strlit("returned");
    reveal_strlit("candidate_count");
    reveal_strlit("case_end_to_end_p95");
    reveal_strlit("case_end_to_end_p99");
    assert("final_precision"@[0] == 'f' && "candidate_count"@[0] == 'c');
    assert("case_end_to_end_p95"@[18] == '5' && "case_end_to_end_p99"@[18] == '9');
}

/// Each value of a case is reported under its own name, and everything that is reported of the
/// case names the case and the strategy.
pub proof fn cases_are_reported_by_name(strategy: Strategy, result: CaseResultModel)
    ensures
        ({
            let all = case_measurements(strategy, result);
            &&& reports_value(all, "candidate_recall"@, Quantity::Number(result.recall))
            &&& reports_value(all, "final_precision"@, Quantity::Number(result.precision))
            &&& reports_value(
                all,
                "ground_truth"@,
                Quantity::Number(whole(result.ground_truth as u64)),
            )
            &&& reports_value(all, "returned"@, Quantity::Number(whole(result.returned as u64)))
            &&& reports_value(
                all,
                "candidate_count"@,
                Quantity::Number(whole(result.candidate_count as u64)),
            )
            &&& reports_value(
                all,
                "case_end_to_end_p95"@,
                Quantity::Number(percentile_of(result.samples, 95)),
            )
            &&& reports_value(
                all,
                "case_end_to_end_p99"@,
                Quantity::Number(percentile_of(result.samples, 99)),
            )
            &&& forall|i: int|
                0 <= i < all.len() ==> {
                    let about = (#[trigger] all[i]).dimensions;
                    &&& about.strategy == strategy
                    &&& about.case == Some(result.case.id)
                    &&& about.query == Some(result.case.query)
                    &&& about.category == Some(result.case.category)
                    &&& about.frequency == Some(result.case.frequency)
                    &&& about.within_candidate_budget == Some(result.within_candidate_budget)
                }
        }),
{
    lemma_case_names();
    let all = case_measurements(strategy, result);
    assert(all[0].name == "candidate_recall"@);
    assert(all[1].name == "final_precision"@);
    assert(all[2].name == "ground_truth"@);
    assert(all[3].name == "returned"@);
    assert(all[4].name == "candidate_count"@);
    assert(all[5].name == "case_end_to_end_p95"@);
    assert(all[6].name == "case_end_to_end_p99"@);
}

/// A report on recall starts with the size of the index and the worst of all cases, and ends with
/// every case, in order. How much larger the index is than another is told only where that is
/// known.
pub proof fn reports_tell_the_worst_and_every_case(
    strategy: Strategy,
    results: Seq<CaseResultModel>,
    index_bytes: u64,
    baseline_index_bytes: u64,
    n: nat,
)
    requires
        0 < n <= results.len(),
    ensures
        ({
            let all = recall_measurements(strategy, results, index_bytes, baseline_index_bytes);
            let head = if baseline_index_bytes > 0 {
                6int
            } else {
                5int
            };
            let summary = summary_of(results);
            &&& all[0].name == "index_size"@ && all[0].value == Quantity::Number(whole(index_bytes))
            &&& baseline_index_bytes > 0 ==> all[1].name == "catalog_amplification"@ && all[1].value
                == Quantity::Number(
                Ratio { numerator: index_bytes, denominator: baseline_index_bytes },
            )
            &&& all[head - 4].name == "minimum_candidate_recall"@ && all[head - 4].value
                == Quantity::Number(summary.minimum_recall)
            &&& all[head - 3].name == "minimum_final_precision"@ && all[head - 3].value
                == Quantity::Number(summary.minimum_precision)
            &&& all[head - 2].name == "end_to_end_p95"@ && all[head - 2].value == Quantity::Number(
                summary.p95,
            )
            &&& all[head - 1].name == "end_to_end_p99"@ && all[head - 1].value == Quantity::Number(
                summary.p99,
            )
            &&& all.skip(head) == cases_measurements(strategy, results, results.len())
        }),
        cases_measurements(strategy, results, n).len() == 7 * n,
        cases_measurements(strategy, results, n).skip(7 * (n - 1)) == case_measurements(
            strategy,
            results[n - 1],
        ),
    decreases n,
{
    let all = recall_measurements(strategy, results, index_bytes, baseline_index_bytes);
    let head = if baseline_index_bytes > 0 {
        6int
    } else {
        5int
    };
    assert(all.skip(head) =~= cases_measurements(strategy, results, results.len()));
    if n > 1 {
        reports_tell_the_worst_and_every_case(
            strategy,
            results,
            index_bytes,
            baseline_index_bytes,
            (n - 1) as nat,
        );
    }
    let before = cases_measurements(strategy, results, (n - 1) as nat);
    assert(before.len() == 7 * (n - 1));
    assert(case_measurements(strategy, results[n - 1]).len() == 7);
    assert(cases_measurements(strategy, results, n).skip(7 * (n - 1)) =~= case_measurements(
        strategy,
        results[n - 1],
    ));
}

proof fn lemma_build_names()
    ensures
        "build_wall"@.len() == 10,
        "build_throughput"@.len() == 16,
        "index_bytes"@.len() == 11,
        "bytes_per_document"@.len() == 18,
        "source_text_bytes"@.len() == 17,
        "index_amplification"@.len() == 19,
        "peak_ram"@.len() == 8,
{
    reveal_strlit("build_wall");
    reveal_strlit("build_throughput");
    reveal_strlit("index_bytes");
    reveal_strlit("bytes_per_document");
    reveal_strlit("source_text_bytes");
    reveal_strlit("index_amplification");
    reveal_strlit("peak_ram");
}

/// Each value of an index build is reported under its own name, for its strategy and for all
/// queries.
pub proof fn builds_are_reported_by_name(build: BuildMetrics, strategy: Strategy)
    ensures
        ({
            let all = build_measurement_models(build, strategy);
            &&& reports_value(all, "build_wall"@, Quantity::Number(in_millis(build.wall_ns)))
            &&& reports_value(
                all,
                "build_throughput"@,
                Quantity::Throughput { documents: build.documents, wall_ns: build.wall_ns },
            )
            &&& reports_value(all, "index_bytes"@, Quantity::Number(whole(build.index_bytes)))
            &&& reports_value(
                all,
                "bytes_per_document"@,
                Quantity::Number(quotient(build.index_bytes, build.documents)),
            )
            &&& reports_value(
                all,
                "source_text_bytes"@,
                Quantity::Number(whole(build.source_text_bytes)),
            )
            &&& reports_value(
                all,
                "index_amplification"@,
                Quantity::Number(quotient(build.index_bytes, build.source_text_bytes)),
            )
            &&& reports_value(all, "peak_ram"@, Quantity::Number(whole(build.peak_ram_bytes)))
            &&& forall|i: int|
                0 <= i < all.len() ==> (#[trigger] all[i]).dimensions.strategy == strategy
                    && all[i].dimensions.query is None
        }),
{
    lemma_build_names();
    let all = build_measurement_models(build, strategy);
    assert(all[0].name == "build_wall"@);
    assert(all[1].name == "build_throughput"@);
    assert(all[2].name == "index_bytes"@);
    assert(all[3].name == "bytes_per_document"@);
    assert(all[4].name == "source_text_bytes"@);
    assert(all[5].name == "index_amplification"@);
    assert(all[6].name == "peak_ram"@);
}

/// Every value of a distribution is one of the samples, and the last is the largest of them; the
/// samples are kept, in order. All of it is about the same.
pub proof fn distributions_are_made_of_samples(
    name: Seq<char>,
    unit: Seq<char>,
    samples: Seq<Ratio>,
    dimensions: crate::search::measure::DimensionsModel,
    k: int,
)
    requires
        0 < samples.len(),
        samples.len() * 100 <= usize::MAX,
        forall|i: int| 0 <= i < samples.len() ==> is_number(#[trigger] samples[i]),
        0 <= k < samples.len(),
    ensures
        ({
            let all = distribution(name, unit, samples, dimensions);
            &&& all.len() == 4
            &&& forall|i: int|
                0 <= i < 4 ==> ((#[trigger] all[i]).value matches Quantity::Number(value)
                    && samples.contains(value)) && all[i].unit == unit && all[i].dimensions
                    == dimensions && name.is_prefix_of(all[i].name)
            &&& at_most(samples[k], all[3].value->Number_0)
            &&& all[3].samples matches Some(kept) && kept.to_multiset() == samples.to_multiset()
            &&& all[0].value == Quantity::Number(percentile_value_of(all[3].samples->0, 50))
            &&& all[1].value == Quantity::Number(percentile_value_of(all[3].samples->0, 95))
            &&& all[2].value == Quantity::Number(percentile_value_of(all[3].samples->0, 99))
        }),
{
    broadcast use vstd::seq_lib::group_to_multiset_ensures;

    let sorted = ascending(samples);
    numbers_are_sorted(samples);
    ascending_keeps_the_elements(samples, number_order());
    assert(sorted.len() == samples.len());
    reported_percentiles_are_samples(sorted, 50);
    reported_percentiles_are_samples(sorted, 95);
    reported_percentiles_are_samples(sorted, 99);
    assert forall|value: Ratio| sorted.contains(value) implies #[trigger] samples.contains(value) by {
        assert(sorted.to_multiset().count(value) > 0);
        assert(samples.to_multiset().count(value) > 0);
    }
    assert(sorted.contains(sorted[sorted.len() - 1]));
    assert(sorted.contains(samples[k])) by {
        assert(samples.to_multiset().count(samples[k]) > 0);
        assert(sorted.to_multiset().count(samples[k]) > 0);
    }
    let at = sorted.index_of(samples[k]);
    if at < samples.len() - 1 {
        assert(at_most(sorted[at], sorted[samples.len() - 1]));
    }
    assert(at_most(samples[k], sorted.last()));
    let all = distribution(name, unit, samples, dimensions);
    assert forall|i: int| 0 <= i < 4 implies ((#[trigger] all[i]).value matches Quantity::Number(
        value,
    ) && samples.contains(value)) && all[i].unit == unit && all[i].dimensions == dimensions
        && name.is_prefix_of(all[i].name) by {
        assert(all[i] == all[0] || all[i] == all[1] || all[i] == all[2] || all[i] == all[3]);
    }
}

/// Everything that is reported of the searches of a query is about that query and that strategy:
/// seven distributions, the samples of each taken from the searches.
pub proof fn searches_are_reported_for_their_query(
    searches: Seq<CandidateMetrics>,
    strategy: Strategy,
    cell: CellModel,
)
    ensures
        ({
            let all = cell_measurements(searches, strategy, cell);
            &&& all.len() == 28
            &&& forall|i: int|
                0 <= i < 28 ==> {
                    let about = (#[trigger] all[i]).dimensions;
                    &&& about.strategy == strategy
                    &&& about.query_length_band == Some(cell.length_band)
                    &&& about.frequency == Some(cell.frequency)
                    &&& about.query == Some(cell.query)
                }
            &&& all[3].name == "candidate_retrieval"@ + "_max"@ && all[3].samples == Some(
                ascending(
                    Seq::new(searches.len(), |i: int| in_millis(searches[i].retrieval_ns)),
                ),
            )
            &&& all[7].name == "verification"@ + "_max"@ && all[7].samples == Some(
                ascending(
                    Seq::new(searches.len(), |i: int| in_millis(searches[i].verification_ns)),
                ),
            )
            &&& all[11].name == "ranker"@ + "_max"@ && all[11].samples == Some(
                ascending(Seq::new(searches.len(), |i: int| in_millis(searches[i].ranker_ns))),
            )
            &&& all[15].name == "end_to_end"@ + "_max"@ && all[15].samples == Some(
                ascending(Seq::new(searches.len(), |i: int| in_millis(searches[i].end_to_end_ns))),
            )
            &&& all[19].name == "candidate_count"@ + "_max"@ && all[19].samples == Some(
                ascending(
                    Seq::new(searches.len(), |i: int| whole(searches[i].candidate_count as u64)),
                ),
            )
            &&& all[23].name == "verified_count"@ + "_max"@ && all[23].samples == Some(
                ascending(
                    Seq::new(searches.len(), |i: int| whole(searches[i].verified_count as u64)),
                ),
            )
        }),
{
    let retrieval = |m: CandidateMetrics| in_millis(m.retrieval_ns);
    let verification = |m: CandidateMetrics| in_millis(m.verification_ns);
    let ranker = |m: CandidateMetrics| in_millis(m.ranker_ns);
    let whole_time = |m: CandidateMetrics| in_millis(m.end_to_end_ns);
    let candidates = |m: CandidateMetrics| whole(m.candidate_count as u64);
    let verified = |m: CandidateMetrics| whole(m.verified_count as u64);
    assert(crate::search::report::series(searches, retrieval) =~= Seq::new(
        searches.len(),
        |i: int| in_millis(searches[i].retrieval_ns),
    ));
    assert(crate::search::report::series(searches, verification) =~= Seq::new(
        searches.len(),
        |i: int| in_millis(searches[i].verification_ns),
    ));
    assert(crate::search::report::series(searches, ranker) =~= Seq::new(
        searches.len(),
        |i: int| in_millis(searches[i].ranker_ns),
    ));
    assert(crate::search::report::series(searches, whole_time) =~= Seq::new(
        searches.len(),
        |i: int| in_millis(searches[i].end_to_end_ns),
    ));
    assert(crate::search::report::series(searches, candidates) =~= Seq::new(
        searches.len(),
        |i: int| whole(searches[i].candidate_count as u64),
    ));
    assert(crate::search::report::series(searches, verified) =~= Seq::new(
        searches.len(),
        |i: int| whole(searches[i].verified_count as u64),
    ));
}

proof fn lemma_flags_in_turn(
    options: OptionsModel,
    arguments: Seq<Seq<char>>,
    flag: Seq<char>,
    value: Seq<char>,
    from: int,
)
    requires
        0 <= from <= arguments.len(),
        (arguments.len() - from) % 2 == 0,
        with_arguments(options, arguments, from) is Ok,
    ensures
        with_arguments(options, arguments + seq![flag, value], from) == with_flag(
            with_arguments(options, arguments, from)->Ok_0,
            flag,
            value,
        ),
    decreases arguments.len() - from,
{
    let all = arguments + seq![flag, value];
    if from < arguments.len() {
        assert(all[from] == arguments[from]);
        assert(all[from + 1] == arguments[from + 1]);
        let next = with_flag(options, arguments[from], arguments[from + 1])->Ok_0;
        lemma_flags_in_turn(next, arguments, flag, value, from + 2);
    } else {
        assert(all[from] == flag);
        assert(all[from + 1] == value);
        match with_flag(options, flag, value) {
            Ok(next) => {
                assert(with_arguments(next, all, from + 2) == Ok::<
                    OptionsModel,
                    ExperimentErrorModel,
                >(next));
            },
            Err(_) => {},
        }
    }
}

/// Each flag that is added changes what it stands for and nothing else: a later value takes the
/// place of an earlier one, but strategies add up. A value that is no number, where one is asked
/// for, is refused.
pub proof fn each_flag_changes_its_own(
    arguments: Seq<Seq<char>>,
    options: OptionsModel,
    value: Seq<char>,
)
    requires
        arguments.len() % 2 == 0,
        with_arguments(default_options(), arguments, 0) == Ok::<OptionsModel, ExperimentErrorModel>(
            options,
        ),
    ensures
        with_arguments(default_options(), arguments + seq!["--run-id"@, value], 0) == Ok::<
            OptionsModel,
            ExperimentErrorModel,
        >(OptionsModel { run_id: value, ..options }),
        parsed(value, u64::MAX as nat) matches Some(n) ==> with_arguments(default_options(), arguments + seq!["--records"@, value], 0) == Ok::<
            OptionsModel,
            ExperimentErrorModel,
        >(OptionsModel { records: n as u64, ..options }),
        parsed(value, u64::MAX as nat) matches Some(n) ==> with_arguments(default_options(), arguments + seq!["--seed"@, value], 0) == Ok::<
            OptionsModel,
            ExperimentErrorModel,
        >(OptionsModel { seed: n as u64, ..options }),
        parsed(value, usize::MAX as nat) matches Some(k) ==> with_arguments(default_options(), arguments + seq!["--samples"@, value], 0) == Ok::<
            OptionsModel,
            ExperimentErrorModel,
        >(OptionsModel { samples_per_cell: k as usize, ..options }),
        parsed(value, usize::MAX as nat) matches Some(k) ==> with_arguments(default_options(), arguments + seq!["--writer-heap-bytes"@, value], 0) == Ok::<
            OptionsModel,
            ExperimentErrorModel,
        >(OptionsModel { writer_heap_bytes: k as usize, ..options }),
        parsed(value, usize::MAX as nat) matches Some(k) ==> with_arguments(default_options(), arguments + seq!["--candidate-limit"@, value], 0) == Ok::<
            OptionsModel,
            ExperimentErrorModel,
        >(OptionsModel { candidate_limit: k as usize, ..options }),
        with_arguments(default_options(), arguments + seq!["--output"@, value], 0) == Ok::<
            OptionsModel,
            ExperimentErrorModel,
        >(OptionsModel { output_directory: value, ..options }),
        parsed(value, u64::MAX as nat) matches Some(n) ==> with_arguments(default_options(), arguments + seq!["--memory-bytes"@, value], 0) == Ok::<
            OptionsModel,
            ExperimentErrorModel,
        >(OptionsModel { memory_bytes: n as u64, ..options }),
        with_arguments(default_options(), arguments + seq!["--storage"@, value], 0) == Ok::<
            OptionsModel,
            ExperimentErrorModel,
        >(OptionsModel { storage: value, ..options }),
        with_arguments(default_options(), arguments + seq!["--power"@, value], 0) == Ok::<
            OptionsModel,
            ExperimentErrorModel,
        >(OptionsModel { power: value, ..options }),
        labelled(value) matches Some(strategy) ==> with_arguments(
            default_options(),
            arguments + seq!["--strategy"@, value],
            0,
        ) == Ok::<OptionsModel, ExperimentErrorModel>(
            OptionsModel { strategies: options.strategies.push(strategy), ..options },
        ),
        labelled(value) is None ==> with_arguments(
            default_options(),
            arguments + seq!["--strategy"@, value],
            0,
        ) is Err,
        parsed(value, u64::MAX as nat) is None ==> with_arguments(
            default_options(),
            arguments + seq!["--records"@, value],
            0,
        ) is Err,
{
    let start = default_options();
    reveal_strlit("--run-id");
    reveal_strlit("--records");
    reveal_strlit("--seed");
    reveal_strlit("--samples");
    reveal_strlit("--writer-heap-bytes");
    reveal_strlit("--candidate-limit");
    reveal_strlit("--output");
    reveal_strlit("--memory-bytes");
    reveal_strlit("--storage");
    reveal_strlit("--power");
    reveal_strlit("--strategy");
    assert("--run-id"@.len() == 8
        && "--records"@.len() == 9
        && "--seed"@.len() == 6
        && "--samples"@.len() == 9
        && "--writer-heap-bytes"@.len() == 19
        && "--candidate-limit"@.len() == 17
        && "--output"@.len() == 8
        && "--memory-bytes"@.len() == 14
        && "--storage"@.len() == 9
        && "--power"@.len() == 7
        && "--strategy"@.len() == 10
        && "--run-id"@[2] == 'r'
        && "--output"@[2] == 'o'
        && "--records"@[2] == 'r'
        && "--samples"@[2] == 's'
        && "--storage"@[2] == 's'
        && "--samples"@[3] == 'a'
        && "--storage"@[3] == 't');
    lemma_flags_in_turn(start, arguments, "--run-id"@, value, 0);
    lemma_flags_in_turn(start, arguments, "--records"@, value, 0);
    lemma_flags_in_turn(start, arguments, "--seed"@, value, 0);
    lemma_flags_in_turn(start, arguments, "--samples"@, value, 0);
    lemma_flags_in_turn(start, arguments, "--writer-heap-bytes"@, value, 0);
    lemma_flags_in_turn(start, arguments, "--candidate-limit"@, value, 0);
    lemma_flags_in_turn(start, arguments, "--output"@, value, 0);
    lemma_flags_in_turn(start, arguments, "--memory-bytes"@, value, 0);
    lemma_flags_in_turn(start, arguments, "--storage"@, value, 0);
    lemma_flags_in_turn(start, arguments, "--power"@, value, 0);
    lemma_flags_in_turn(start, arguments, "--strategy"@, value, 0);
}

} // verus!
