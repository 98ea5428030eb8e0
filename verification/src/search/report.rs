//! The strategy comparison: its controls, its queries, and what is measured of them.

use vstd::prelude::*;

use crate::decimal::{decimal, parse_unsigned, parsed, write_decimal};
use crate::graph::fingerprint::{digest, sha256};
use crate::search::error::{
    is_identifier, valid_identifier, ExperimentError, ExperimentErrorModel, ExperimentResult,
};
use crate::search::measure::{
    append_measurements, ascending, in_millis, measurement, measurement_models, plain,
    sort_ascending, whole, Dimensions, DimensionsModel, Measurement, MeasurementModel, Quantity,
    Ratio,
};
use crate::search::outcome::{quotient, rejection, BuildMetrics, CandidateMetrics};
use crate::search::retrieval::{hex, hex_text, strategy_label, Strategy};
use crate::text::{chars_of, in_a_row, replace_char, replaced, same_text, texts};

verus! {

/// Controls of the strategy comparison.
#[derive(Clone, Debug, PartialEq, Eq)]
pub struct BenchmarkOptions {
    /// Identifier of the run.
    pub run_id: String,
    /// Records of the dataset.
    pub records: u64,
    /// Seed of the generator.
    pub seed: u64,
    /// Measured searches of each query.
    pub samples_per_cell: usize,
    /// Memory of the index writer.
    pub writer_heap_bytes: usize,
    /// Candidates that may be looked at.
    pub candidate_limit: usize,
    /// Directory of the reports.
    pub output_directory: String,
    /// Strategies to compare; all if empty.
    pub strategies: Vec<Strategy>,
    /// Memory of the machine.
    pub memory_bytes: u64,
    /// Storage of the machine.
    pub storage: String,
    /// Power supply of the machine.
    pub power: String,
}

/// Controls as a mathematical value.
pub struct OptionsModel {
    pub run_id: Seq<char>,
    pub records: u64,
    pub seed: u64,
    pub samples_per_cell: usize,
    pub writer_heap_bytes: usize,
    pub candidate_limit: usize,
    pub output_directory: Seq<char>,
    pub strategies: Seq<Strategy>,
    pub memory_bytes: u64,
    pub storage: Seq<char>,
    pub power: Seq<char>,
}

impl View for BenchmarkOptions {
    type V = OptionsModel;

    open spec fn view(&self) -> OptionsModel {
        OptionsModel {
            run_id: self.run_id@,
            records: self.records,
            seed: self.seed,
            samples_per_cell: self.samples_per_cell,
            writer_heap_bytes: self.writer_heap_bytes,
            candidate_limit: self.candidate_limit,
            output_directory: self.output_directory@,
            strategies: self.strategies@,
            memory_bytes: self.memory_bytes,
            storage: self.storage@,
            power: self.power@,
        }
    }
}

/// Why the controls are refused; nothing if they are not.
pub open spec fn benchmark_refusal(options: OptionsModel) -> Option<ExperimentErrorModel> {
    if options.samples_per_cell == 0 {
        Some(ExperimentErrorModel::InvalidDocument("samples_per_cell"@))
    } else if !is_identifier(options.run_id) {
        Some(ExperimentErrorModel::InvalidDocument("run_id"@))
    } else if options.memory_bytes == 0 || options.storage.len() == 0 || options.power.len() == 0 {
        Some(ExperimentErrorModel::InvalidDocument("machine provenance"@))
    } else {
        None
    }
}

/// Checks the controls.
pub fn validate_benchmark(options: &BenchmarkOptions) -> (r: ExperimentResult<()>)
    ensures
        match r {
            Ok(()) => benchmark_refusal(options@) is None,
            Err(error) => benchmark_refusal(options@) == Some(error@),
        },
{
    if options.samples_per_cell == 0 {
        return Err(ExperimentError::InvalidDocument("samples_per_cell"));
    }
    if !valid_identifier(options.run_id.as_str()) {
        return Err(ExperimentError::InvalidDocument("run_id"));
    }
    if options.memory_bytes == 0 || options.storage.as_str().is_empty()
        || options.power.as_str().is_empty() {
        return Err(ExperimentError::InvalidDocument("machine provenance"));
    }
    Ok(())
}

/// The strategies to run: those asked for, or all if none is.
pub fn strategies_to_run(asked: &Vec<Strategy>) -> (r: Vec<Strategy>)
    ensures
        r@ == (if asked@.len() == 0 {
            seq![
                Strategy::Trigram,
                Strategy::TokenPrefixLimitedTrigram,
                Strategy::BoundedFourgram,
            ]
        } else {
            asked@
        }),
{
    if asked.len() == 0 {
        return Strategy::all();
    }
    let mut r: Vec<Strategy> = Vec::new();
    let mut i: usize = 0;
    while i < asked.len()
        invariant
            i <= asked@.len(),
            r@ =~= asked@.take(i as int),
        decreases asked@.len() - i,
    {
        r.push(asked[i]);
        i = i + 1;
    }
    assert(asked@.take(i as int) =~= asked@);
    r
}

/// The strategy that a label names.
pub open spec fn labelled(label: Seq<char>) -> Option<Strategy> {
    if label == "trigram"@ {
        Some(Strategy::Trigram)
    } else if label == "token_prefix_limited_trigram"@ {
        Some(Strategy::TokenPrefixLimitedTrigram)
    } else if label == "bounded_fourgram"@ {
        Some(Strategy::BoundedFourgram)
    } else {
        None
    }
}

/// Reads the label of a strategy.
pub fn parse_strategy(value: &str) -> (r: ExperimentResult<Strategy>)
    ensures
        match r {
            Ok(strategy) => labelled(value@) == Some(strategy),
            Err(error) => labelled(value@) is None && error@
                == ExperimentErrorModel::InvalidDocument("unknown strategy"@),
        },
{
    if same_text(value, "trigram") {
        Ok(Strategy::Trigram)
    } else if same_text(value, "token_prefix_limited_trigram") {
        Ok(Strategy::TokenPrefixLimitedTrigram)
    } else if same_text(value, "bounded_fourgram") {
        Ok(Strategy::BoundedFourgram)
    } else {
        Err(ExperimentError::InvalidDocument("unknown strategy"))
    }
}

/// Reading the label of a strategy gives the strategy back.
pub proof fn labels_name_their_strategies(strategy: Strategy)
    ensures
        labelled(strategy_label(strategy)) == Some(strategy),
{
    reveal_strlit("trigram");
    reveal_strlit("token_prefix_limited_trigram");
    reveal_strlit("bounded_fourgram");
    assert("trigram"@.len() == 7);
    assert("token_prefix_limited_trigram"@.len() == 28);
    assert("bounded_fourgram"@.len() == 16);
}

/// The controls when none is given on the command line.
pub open spec fn default_options() -> OptionsModel {
    OptionsModel {
        run_id: Seq::empty(),
        records: 100_000,
        seed: 20_260_814,
        samples_per_cell: 30,
        writer_heap_bytes: 134_217_728,
        candidate_limit: 300,
        output_directory: "reports/spikes/start-003"@,
        strategies: Seq::empty(),
        memory_bytes: 0,
        storage: Seq::empty(),
        power: Seq::empty(),
    }
}

/// The outcome of one flag and its value.
pub open spec fn with_flag(options: OptionsModel, flag: Seq<char>, value: Seq<char>) -> Result<
    OptionsModel,
    ExperimentErrorModel,
> {
    let number = parsed(value, u64::MAX as nat);
    let size = parsed(value, usize::MAX as nat);
    let bad_number = Err::<OptionsModel, ExperimentErrorModel>(
        ExperimentErrorModel::InvalidDocument("invalid CLI number"@),
    );
    if flag == "--run-id"@ {
        Ok(OptionsModel { run_id: value, ..options })
    } else if flag == "--records"@ {
        match number {
            Some(n) => Ok(OptionsModel { records: n as u64, ..options }),
            None => bad_number,
        }
    } else if flag == "--seed"@ {
        match number {
            Some(n) => Ok(OptionsModel { seed: n as u64, ..options }),
            None => bad_number,
        }
    } else if flag == "--samples"@ {
        match size {
            Some(n) => Ok(OptionsModel { samples_per_cell: n as usize, ..options }),
            None => bad_number,
        }
    } else if flag == "--writer-heap-bytes"@ {
        match size {
            Some(n) => Ok(OptionsModel { writer_heap_bytes: n as usize, ..options }),
            None => bad_number,
        }
    } else if flag == "--candidate-limit"@ {
        match size {
            Some(n) => Ok(OptionsModel { candidate_limit: n as usize, ..options }),
            None => bad_number,
        }
    } else if flag == "--output"@ {
        Ok(OptionsModel { output_directory: value, ..options })
    } else if flag == "--strategy"@ {
        match labelled(value) {
            Some(strategy) => Ok(
                OptionsModel { strategies: options.strategies.push(strategy), ..options },
            ),
            None => Err(ExperimentErrorModel::InvalidDocument("unknown strategy"@)),
        }
    } else if flag == "--memory-bytes"@ {
        match number {
            Some(n) => Ok(OptionsModel { memory_bytes: n as u64, ..options }),
            None => bad_number,
        }
    } else if flag == "--storage"@ {
        Ok(OptionsModel { storage: value, ..options })
    } else if flag == "--power"@ {
        Ok(OptionsModel { power: value, ..options })
    } else {
        Err(ExperimentErrorModel::InvalidDocument("unknown CLI flag"@))
    }
}

/// The controls given by the arguments from `i` on: flags, each followed by its value. The first
/// flag that is unknown, or has no value or an invalid one, decides.
pub open spec fn with_arguments(
    options: OptionsModel,
    arguments: Seq<Seq<char>>,
    i: int,
) -> Result<OptionsModel, ExperimentErrorModel>
    decreases arguments.len() - i,
{
    if i >= arguments.len() {
        Ok(options)
    } else if i + 1 >= arguments.len() {
        Err(ExperimentErrorModel::InvalidDocument("missing CLI value"@))
    } else {
        match with_flag(options, arguments[i], arguments[i + 1]) {
            Ok(next) => with_arguments(next, arguments, i + 2),
            Err(error) => Err(error),
        }
    }
}

fn parse_number(value: &str) -> (r: ExperimentResult<u64>)
    ensures
        match r {
            Ok(n) => parsed(value@, u64::MAX as nat) == Some(n as nat),
            Err(error) => parsed(value@, u64::MAX as nat) is None && error@
                == ExperimentErrorModel::InvalidDocument("invalid CLI number"@),
        },
{
    match parse_unsigned(value, u64::MAX) {
        Some(n) => Ok(n),
        None => Err(ExperimentError::InvalidDocument("invalid CLI number")),
    }
}

fn parse_size(value: &str) -> (r: ExperimentResult<usize>)
    ensures
        match r {
            Ok(n) => parsed(value@, usize::MAX as nat) == Some(n as nat),
            Err(error) => parsed(value@, usize::MAX as nat) is None && error@
                == ExperimentErrorModel::InvalidDocument("invalid CLI number"@),
        },
{
    match parse_unsigned(value, usize::MAX as u64) {
        Some(n) => Ok(n as usize),
        None => Err(ExperimentError::InvalidDocument("invalid CLI number")),
    }
}

fn apply_flag(options: BenchmarkOptions, flag: &str, value: &str) -> (r: ExperimentResult<
    BenchmarkOptions,
>)
    ensures
        match r {
            Ok(next) => with_flag(options@, flag@, value@) == Ok::<
                OptionsModel,
                ExperimentErrorModel,
            >(next@),
            Err(error) => with_flag(options@, flag@, value@) == Err::<
                OptionsModel,
                ExperimentErrorModel,
            >(error@),
        },
{
    let mut options = options;
    if same_text(flag, "--run-id") {
        options.run_id = value.to_owned();
    } else if same_text(flag, "--records") {
        match parse_number(value) {
            Ok(n) => options.records = n,
            Err(error) => return Err(error),
        }
    } else if same_text(flag, "--seed") {
        match parse_number(value) {
            Ok(n) => options.seed = n,
            Err(error) => return Err(error),
        }
    } else if same_text(flag, "--samples") {
        match parse_size(value) {
            Ok(n) => options.samples_per_cell = n,
            Err(error) => return Err(error),
        }
    } else if same_text(flag, "--writer-heap-bytes") {
        match parse_size(value) {
            Ok(n) => options.writer_heap_bytes = n,
            Err(error) => return Err(error),
        }
    } else if same_text(flag, "--candidate-limit") {
        match parse_size(value) {
            Ok(n) => options.candidate_limit = n,
            Err(error) => return Err(error),
        }
    } else if same_text(flag, "--output") {
        options.output_directory = value.to_owned();
    } else if same_text(flag, "--strategy") {
        match parse_strategy(value) {
            Ok(strategy) => options.strategies.push(strategy),
            Err(error) => return Err(error),
        }
    } else if same_text(flag, "--memory-bytes") {
        match parse_number(value) {
            Ok(n) => options.memory_bytes = n,
            Err(error) => return Err(error),
        }
    } else if same_text(flag, "--storage") {
        options.storage = value.to_owned();
    } else if same_text(flag, "--power") {
        options.power = value.to_owned();
    } else {
        return Err(ExperimentError::InvalidDocument("unknown CLI flag"));
    }
    Ok(options)
}

/// Reads the command line.
pub fn parse_arguments(arguments: &Vec<String>) -> (r: ExperimentResult<BenchmarkOptions>)
    ensures
        match r {
            Ok(options) => with_arguments(default_options(), crate::text::texts(arguments@), 0)
                == Ok::<OptionsModel, ExperimentErrorModel>(options@),
            Err(error) => with_arguments(default_options(), crate::text::texts(arguments@), 0)
                == Err::<OptionsModel, ExperimentErrorModel>(error@),
        },
{
    let ghost all = crate::text::texts(arguments@);
    let mut options = BenchmarkOptions {
        run_id: String::new(),
        records: 100_000,
        seed: 20_260_814,
        samples_per_cell: 30,
        writer_heap_bytes: 134_217_728,
        candidate_limit: 300,
        output_directory: "reports/spikes/start-003".to_owned(),
        strategies: Vec::new(),
        memory_bytes: 0,
        storage: String::new(),
        power: String::new(),
    };
    let mut i: usize = 0;
    while i < arguments.len()
        invariant
            i <= arguments@.len(),
            all == crate::text::texts(arguments@),
            with_arguments(options@, all, i as int) == with_arguments(default_options(), all, 0),
        decreases arguments@.len() - i,
    {
        if arguments.len() - i < 2 {
            return Err(ExperimentError::InvalidDocument("missing CLI value"));
        }
        assert(all[i as int] == arguments@[i as int]@);
        assert(all[i + 1] == arguments@[i + 1]@);
        match apply_flag(options, arguments[i].as_str(), arguments[i + 1].as_str()) {
            Ok(next) => options = next,
            Err(error) => return Err(error),
        }
        i = i + 2;
    }
    Ok(options)
}

/// Where the records of a report come from.
#[derive(Clone, Copy, Debug, PartialEq, Eq)]
pub struct DatasetDescriptor {
    /// Name of the dataset.
    pub name: &'static str,
    /// Version of the generator.
    pub version: u32,
    /// Seed of the generator.
    pub seed: u64,
    /// Records that are indexed.
    pub records: u64,
    /// Version of the workload.
    pub workload: &'static str,
}

impl DatasetDescriptor {
    /// Describes the records of a generator under the workload of the comparison.
    pub fn new(name: &'static str, version: u32, records: u64, seed: u64) -> (r: DatasetDescriptor)
        ensures
            r.name@ == name@,
            r.version == version,
            r.seed == seed,
            r.records == records,
            r.workload@ == "substring-product-ranking-v1"@,
    {
        DatasetDescriptor { name, version, seed, records, workload: "substring-product-ranking-v1" }
    }
}

/// A query of the comparison.
#[derive(Clone, Copy, Debug, PartialEq, Eq)]
pub struct WorkloadCell {
    /// Length of the query.
    pub length_band: &'static str,
    /// Frequency of the query.
    pub frequency: &'static str,
    /// The query.
    pub query: &'static str,
}

/// A query of the comparison as a mathematical value.
pub struct CellModel {
    pub length_band: Seq<char>,
    pub frequency: Seq<char>,
    pub query: Seq<char>,
}

impl View for WorkloadCell {
    type V = CellModel;

    open spec fn view(&self) -> CellModel {
        CellModel {
            length_band: self.length_band@,
            frequency: self.frequency@,
            query: self.query@,
        }
    }
}

pub open spec fn cell_of(length_band: Seq<char>, frequency: Seq<char>, query: Seq<char>) ->
    CellModel {
    CellModel { length_band, frequency, query }
}

/// The queries of the comparison: four lengths, each rare, common and in the worst case.
pub open spec fn cells() -> Seq<CellModel> {
    seq![
        cell_of("1"@, "rare"@, "q"@),
        cell_of("1"@, "common"@, "r"@),
        cell_of("1"@, "worst_case"@, "0"@),
        cell_of("2"@, "rare"@, "qx"@),
        cell_of("2"@, "common"@, "re"@),
        cell_of("2"@, "worst_case"@, "00"@),
        cell_of("3-5"@, "rare"@, "qzx"@),
        cell_of("3-5"@, "common"@, "rep"@),
        cell_of("3-5"@, "worst_case"@, "000"@),
        cell_of("6+"@, "rare"@, "qxnever"@),
        cell_of("6+"@, "common"@, "report"@),
        cell_of("6+"@, "worst_case"@, "000000"@),
    ]
}

fn cell(length_band: &'static str, frequency: &'static str, query: &'static str) -> (r:
    WorkloadCell)
    ensures
        r@ == cell_of(length_band@, frequency@, query@),
{
    WorkloadCell { length_band, frequency, query }
}

/// Searches before those that are measured.
pub const WARMUP_SEARCHES: usize = 3;

/// The short queries that ask for substrings alone: each must be refused.
pub fn short_probes() -> (r: Vec<&'static str>)
    ensures
        r@.len() == 2,
        r@[0]@ == "q"@,
        r@[1]@ == "qx"@,
{
    vec!["q", "qx"]
}

/// The queries of the comparison.
pub fn workload() -> (r: Vec<WorkloadCell>)
    ensures
        r@.len() == 12,
        forall|i: int| 0 <= i < 12 ==> (#[trigger] r@[i])@ == cells()[i],
{
    vec![
        cell("1", "rare", "q"),
        cell("1", "common", "r"),
        cell("1", "worst_case", "0"),
        cell("2", "rare", "qx"),
        cell("2", "common", "re"),
        cell("2", "worst_case", "00"),
        cell("3-5", "rare", "qzx"),
        cell("3-5", "common", "rep"),
        cell("3-5", "worst_case", "000"),
        cell("6+", "rare", "qxnever"),
        cell("6+", "common", "report"),
        cell("6+", "worst_case", "000000"),
    ]
}

/// The band of a query length.
pub open spec fn band(length: nat) -> Seq<char> {
    if length == 1 {
        "1"@
    } else if length == 2 {
        "2"@
    } else if 3 <= length <= 5 {
        "3-5"@
    } else {
        "6+"@
    }
}

/// The band of the length of a query.
pub fn length_label(query: &str) -> (r: &'static str)
    ensures
        r@ == band(query@.len()),
{
    let length: usize = chars_of(query).len();
    if length == 1 {
        "1"
    } else if length == 2 {
        "2"
    } else if 3 <= length && length <= 5 {
        "3-5"
    } else {
        "6+"
    }
}

/// The position of a percentile: that of the smallest sample which a percentage does not exceed.
pub open spec fn percentile_position(length: nat, percent: nat) -> int {
    let scaled = if length * percent > usize::MAX {
        usize::MAX as nat
    } else {
        length * percent
    };
    let position = (scaled + 99) / 100 - 1;
    if position < 0 {
        0
    } else if position > length - 1 {
        length - 1
    } else {
        position
    }
}

/// The percentile of ascending samples; nothing of none.
pub open spec fn percentile_value_of(ordered: Seq<Ratio>, percent: nat) -> Ratio {
    if ordered.len() == 0 {
        whole(0)
    } else {
        ordered[percentile_position(ordered.len(), percent)]
    }
}

/// The percentile of ascending samples.
pub fn percentile_value(ordered: &Vec<Ratio>, percent: usize) -> (r: Ratio)
    ensures
        r == percentile_value_of(ordered@, percent as nat),
{
    if ordered.len() == 0 {
        return Ratio::of_count(0);
    }
    let scaled: usize = match ordered.len().checked_mul(percent) {
        Some(product) => product,
        None => usize::MAX,
    };
    let up: usize = if scaled % 100 == 0 {
        scaled / 100
    } else {
        scaled / 100 + 1
    };
    let mut position: usize = up.saturating_sub(1);
    if position > ordered.len() - 1 {
        position = ordered.len() - 1;
    }
    assert(up == (scaled + 99) / 100) by {
        let whole_part = scaled as int / 100;
        let rest = scaled as int % 100;
        assert(scaled == whole_part * 100 + rest);
    }
    ordered[position]
}

/// What a measurement of the comparison is about.
pub open spec fn dimensions_of(
    strategy: Strategy,
    length_band: Seq<char>,
    frequency: Seq<char>,
    query: Option<Seq<char>>,
) -> DimensionsModel {
    DimensionsModel {
        strategy,
        query_length_band: Some(length_band),
        frequency: Some(frequency),
        query,
        case: None,
        category: None,
        within_candidate_budget: None,
    }
}

fn dimensions(strategy: Strategy, length_band: &str, frequency: &str, query: Option<&str>) -> (r:
    Dimensions)
    ensures
        r@ == dimensions_of(
            strategy,
            length_band@,
            frequency@,
            match query {
                Some(text) => Some(text@),
                None => None,
            },
        ),
{
    Dimensions {
        strategy,
        query_length_band: Some(length_band.to_owned()),
        frequency: Some(frequency.to_owned()),
        query: match query {
            Some(text) => Some(text.to_owned()),
            None => None,
        },
        case: None,
        category: None,
        within_candidate_budget: None,
    }
}

/// The measurements of one list of samples: three percentiles and the maximum, the last with the
/// samples in ascending order.
pub open spec fn distribution(
    name: Seq<char>,
    unit: Seq<char>,
    samples: Seq<Ratio>,
    dimensions: DimensionsModel,
) -> Seq<MeasurementModel> {
    let ordered = ascending(samples);
    seq![
        plain(
            name + "_p50"@,
            unit,
            Quantity::Number(percentile_value_of(ordered, 50)),
            dimensions,
        ),
        plain(
            name + "_p95"@,
            unit,
            Quantity::Number(percentile_value_of(ordered, 95)),
            dimensions,
        ),
        plain(
            name + "_p99"@,
            unit,
            Quantity::Number(percentile_value_of(ordered, 99)),
            dimensions,
        ),
        MeasurementModel {
            samples: Some(ordered),
            ..plain(
                name + "_max"@,
                unit,
                Quantity::Number(
                    if ordered.len() == 0 {
                        whole(0)
                    } else {
                        ordered.last()
                    },
                ),
                dimensions,
            )
        },
    ]
}

fn suffixed(name: &str, suffix: &str) -> (r: String)
    ensures
        r@ == name@ + suffix@,
{
    let mut r = name.to_owned();
    r.append(suffix);
    r
}

/// Adds the measurements of one list of samples.
pub fn add_distribution(
    output: &mut Vec<Measurement>,
    name: &str,
    unit: &str,
    samples: &Vec<Ratio>,
    strategy: Strategy,
    cell: WorkloadCell,
)
    ensures
        measurement_models(final(output)@) == measurement_models(old(output)@) + distribution(
            name@,
            unit@,
            samples@,
            dimensions_of(
                strategy,
                cell.length_band@,
                cell.frequency@,
                Some(cell.query@),
            ),
        ),
{
    let ordered = sort_ascending(samples);
    let about = dimensions(strategy, cell.length_band, cell.frequency, Some(cell.query));
    let p50 = Quantity::Number(percentile_value(&ordered, 50));
    let p95 = Quantity::Number(percentile_value(&ordered, 95));
    let p99 = Quantity::Number(percentile_value(&ordered, 99));
    let largest = if ordered.len() == 0 {
        Ratio::of_count(0)
    } else {
        ordered[ordered.len() - 1]
    };
    let mut maximum = measurement(
        suffixed(name, "_max").as_str(),
        unit,
        Quantity::Number(largest),
        &about,
    );
    maximum.samples = Some(ordered);
    let added = vec![
        measurement(suffixed(name, "_p50").as_str(), unit, p50, &about),
        measurement(suffixed(name, "_p95").as_str(), unit, p95, &about),
        measurement(suffixed(name, "_p99").as_str(), unit, p99, &about),
        maximum,
    ];
    assert(measurement_models(added@) =~= distribution(name@, unit@, samples@, about@));
    append_measurements(output, added);
}

/// The measurements of an index build.
pub open spec fn build_measurement_models(build: BuildMetrics, strategy: Strategy) -> Seq<
    MeasurementModel,
> {
    let about = dimensions_of(strategy, "all"@, "all"@, None);
    seq![
        plain("build_wall"@, "ms"@, Quantity::Number(in_millis(build.wall_ns)), about),
        plain(
            "build_throughput"@,
            "documents_per_second"@,
            Quantity::Throughput { documents: build.documents, wall_ns: build.wall_ns },
            about,
        ),
        plain("index_bytes"@, "bytes"@, Quantity::Number(whole(build.index_bytes)), about),
        plain(
            "bytes_per_document"@,
            "bytes_per_document"@,
            Quantity::Number(quotient(build.index_bytes, build.documents)),
            about,
        ),
        plain(
            "source_text_bytes"@,
            "bytes"@,
            Quantity::Number(whole(build.source_text_bytes)),
            about,
        ),
        plain(
            "index_amplification"@,
            "ratio"@,
            Quantity::Number(quotient(build.index_bytes, build.source_text_bytes)),
            about,
        ),
        plain("peak_ram"@, "bytes"@, Quantity::Number(whole(build.peak_ram_bytes)), about),
    ]
}

/// The measurements of an index build.
pub fn build_measurements(build: &BuildMetrics, strategy: Strategy) -> (r: Vec<Measurement>)
    ensures
        measurement_models(r@) == build_measurement_models(*build, strategy),
{
    let about = dimensions(strategy, "all", "all", None);
    let wall = Quantity::Number(Ratio::of_nanoseconds(build.wall_ns));
    let throughput = Quantity::Throughput { documents: build.documents, wall_ns: build.wall_ns };
    let bytes = Quantity::Number(Ratio::of_count(build.index_bytes));
    let each = Quantity::Number(build.bytes_per_document());
    let source = Quantity::Number(Ratio::of_count(build.source_text_bytes));
    let growth = Quantity::Number(build.index_amplification());
    let memory = Quantity::Number(Ratio::of_count(build.peak_ram_bytes));
    let r = vec![
        measurement("build_wall", "ms", wall, &about),
        measurement("build_throughput", "documents_per_second", throughput, &about),
        measurement("index_bytes", "bytes", bytes, &about),
        measurement("bytes_per_document", "bytes_per_document", each, &about),
        measurement("source_text_bytes", "bytes", source, &about),
        measurement("index_amplification", "ratio", growth, &about),
        measurement("peak_ram", "bytes", memory, &about),
    ];
    assert(measurement_models(r@) =~= build_measurement_models(*build, strategy));
    r
}

/// The samples of one query.
pub struct CellSamples {
    retrieval: Vec<Ratio>,
    verification: Vec<Ratio>,
    ranker: Vec<Ratio>,
    end_to_end: Vec<Ratio>,
    candidate_count: Vec<Ratio>,
    verified_count: Vec<Ratio>,
    rejection: Vec<Ratio>,
}

/// The ratios that a sequence of searches gives.
pub open spec fn series(searches: Seq<CandidateMetrics>, of: spec_fn(CandidateMetrics) -> Ratio) ->
    Seq<Ratio> {
    Seq::new(searches.len(), |i: int| of(searches[i]))
}

/// The measurements of the searches of one query.
pub open spec fn cell_measurements(
    searches: Seq<CandidateMetrics>,
    strategy: Strategy,
    cell: CellModel,
) -> Seq<MeasurementModel> {
    let about = dimensions_of(strategy, cell.length_band, cell.frequency, Some(cell.query));
    distribution(
        "candidate_retrieval"@,
        "ms"@,
        series(searches, |m: CandidateMetrics| in_millis(m.retrieval_ns)),
        about,
    ) + distribution(
        "verification"@,
        "ms"@,
        series(searches, |m: CandidateMetrics| in_millis(m.verification_ns)),
        about,
    ) + distribution(
        "ranker"@,
        "ms"@,
        series(searches, |m: CandidateMetrics| in_millis(m.ranker_ns)),
        about,
    ) + distribution(
        "end_to_end"@,
        "ms"@,
        series(searches, |m: CandidateMetrics| in_millis(m.end_to_end_ns)),
        about,
    ) + distribution(
        "candidate_count"@,
        "documents"@,
        series(searches, |m: CandidateMetrics| whole(m.candidate_count as u64)),
        about,
    ) + distribution(
        "verified_count"@,
        "documents"@,
        series(searches, |m: CandidateMetrics| whole(m.verified_count as u64)),
        about,
    ) + distribution(
        "verification_rejection_ratio"@,
        "ratio"@,
        series(searches, |m: CandidateMetrics| rejection(m)),
        about,
    )
}

impl CellSamples {
    /// The samples are those of the searches.
    pub closed spec fn holds(&self, searches: Seq<CandidateMetrics>) -> bool {
        &&& self.retrieval@ == series(
            searches,
            |m: CandidateMetrics| in_millis(m.retrieval_ns),
        )
        &&& self.verification@ == series(
            searches,
            |m: CandidateMetrics| in_millis(m.verification_ns),
        )
        &&& self.ranker@ == series(searches, |m: CandidateMetrics| in_millis(m.ranker_ns))
        &&& self.end_to_end@ == series(
            searches,
            |m: CandidateMetrics| in_millis(m.end_to_end_ns),
        )
        &&& self.candidate_count@ == series(
            searches,
            |m: CandidateMetrics| whole(m.candidate_count as u64),
        )
        &&& self.verified_count@ == series(
            searches,
            |m: CandidateMetrics| whole(m.verified_count as u64),
        )
        &&& self.rejection@ == series(searches, |m: CandidateMetrics| rejection(m))
    }

    fn begin() -> (r: CellSamples)
        ensures
            r.holds(Seq::empty()),
    {
        let r = CellSamples {
            retrieval: Vec::new(),
            verification: Vec::new(),
            ranker: Vec::new(),
            end_to_end: Vec::new(),
            candidate_count: Vec::new(),
            verified_count: Vec::new(),
            rejection: Vec::new(),
        };
        let ghost none = Seq::<CandidateMetrics>::empty();
        assert(r.retrieval@ =~= series(none, |m: CandidateMetrics| in_millis(m.retrieval_ns)));
        assert(r.verification@ =~= series(
            none,
            |m: CandidateMetrics| in_millis(m.verification_ns),
        ));
        assert(r.ranker@ =~= series(none, |m: CandidateMetrics| in_millis(m.ranker_ns)));
        assert(r.end_to_end@ =~= series(none, |m: CandidateMetrics| in_millis(m.end_to_end_ns)));
        assert(r.candidate_count@ =~= series(
            none,
            |m: CandidateMetrics| whole(m.candidate_count as u64),
        ));
        assert(r.verified_count@ =~= series(
            none,
            |m: CandidateMetrics| whole(m.verified_count as u64),
        ));
        assert(r.rejection@ =~= series(none, |m: CandidateMetrics| rejection(m)));
        r
    }

    fn record(&mut self, metrics: CandidateMetrics, Ghost(searches): Ghost<Seq<CandidateMetrics>>)
        requires
            old(self).holds(searches),
            metrics.verified_count <= metrics.candidate_count,
        ensures
            final(self).holds(searches.push(metrics)),
    {
        self.retrieval.push(Ratio::of_nanoseconds(metrics.retrieval_ns));
        self.verification.push(Ratio::of_nanoseconds(metrics.verification_ns));
        self.ranker.push(Ratio::of_nanoseconds(metrics.ranker_ns));
        self.end_to_end.push(Ratio::of_nanoseconds(metrics.end_to_end_ns));
        self.candidate_count.push(Ratio::of_count(metrics.candidate_count as u64));
        self.verified_count.push(Ratio::of_count(metrics.verified_count as u64));
        self.rejection.push(metrics.rejection_ratio());
        proof {
            let next = searches.push(metrics);
            assert(self.retrieval@ =~= series(
                next,
                |m: CandidateMetrics| in_millis(m.retrieval_ns),
            ));
            assert(self.verification@ =~= series(
                next,
                |m: CandidateMetrics| in_millis(m.verification_ns),
            ));
            assert(self.ranker@ =~= series(next, |m: CandidateMetrics| in_millis(m.ranker_ns)));
            assert(self.end_to_end@ =~= series(
                next,
                |m: CandidateMetrics| in_millis(m.end_to_end_ns),
            ));
            assert(self.candidate_count@ =~= series(
                next,
                |m: CandidateMetrics| whole(m.candidate_count as u64),
            ));
            assert(self.verified_count@ =~= series(
                next,
                |m: CandidateMetrics| whole(m.verified_count as u64),
            ));
            assert(self.rejection@ =~= series(next, |m: CandidateMetrics| rejection(m)));
        }
    }
}

/// The measurements of the searches of one query.
pub fn measure_cell(
    searches: &Vec<CandidateMetrics>,
    strategy: Strategy,
    cell: WorkloadCell,
) -> (r: Vec<Measurement>)
    requires
        forall|i: int|
            0 <= i < searches@.len() ==> (#[trigger] searches@[i]).verified_count
                <= searches@[i].candidate_count,
    ensures
        measurement_models(r@) == cell_measurements(searches@, strategy, cell@),
{
    let mut samples = CellSamples::begin();
    let mut i: usize = 0;
    assert(searches@.take(0) =~= Seq::empty());
    while i < searches.len()
        invariant
            i <= searches@.len(),
            forall|k: int|
                0 <= k < searches@.len() ==> (#[trigger] searches@[k]).verified_count
                    <= searches@[k].candidate_count,
            samples.holds(searches@.take(i as int)),
        decreases searches@.len() - i,
    {
        samples.record(searches[i], Ghost(searches@.take(i as int)));
        i = i + 1;
        assert(searches@.take(i as int) =~= searches@.take(i - 1).push(searches@[i - 1]));
    }
    assert(searches@.take(i as int) =~= searches@);
    let mut r: Vec<Measurement> = Vec::new();
    assert(measurement_models(r@) =~= Seq::empty());
    add_distribution(&mut r, "candidate_retrieval", "ms", &samples.retrieval, strategy, cell);
    add_distribution(&mut r, "verification", "ms", &samples.verification, strategy, cell);
    add_distribution(&mut r, "ranker", "ms", &samples.ranker, strategy, cell);
    add_distribution(&mut r, "end_to_end", "ms", &samples.end_to_end, strategy, cell);
    add_distribution(
        &mut r,
        "candidate_count",
        "documents",
        &samples.candidate_count,
        strategy,
        cell,
    );
    add_distribution(
        &mut r,
        "verified_count",
        "documents",
        &samples.verified_count,
        strategy,
        cell,
    );
    add_distribution(
        &mut r,
        "verification_rejection_ratio",
        "ratio",
        &samples.rejection,
        strategy,
        cell,
    );
    assert(measurement_models(r@) =~= cell_measurements(searches@, strategy, cell@));
    r
}

/// The measurement that a short substring query was refused, or not.
pub fn measure_short_probe(strategy: Strategy, query: &str, rejected: bool) -> (r: Measurement)
    ensures
        r@ == plain(
            "short_substring_policy_rejected"@,
            "boolean"@,
            Quantity::Number(
                whole(
                    if rejected {
                        1
                    } else {
                        0
                    },
                ),
            ),
            dimensions_of(strategy, band(query@.len()), "policy_probe"@, None),
        ),
{
    let value = Ratio::of_count(
        if rejected {
            1
        } else {
            0
        },
    );
    measurement(
        "short_substring_policy_rejected",
        "boolean",
        Quantity::Number(value),
        &dimensions(strategy, length_label(query), "policy_probe", None),
    )
}

/// The name of the reports of a strategy, without extension.
pub fn benchmark_stem(strategy: Strategy, records: u64, seed: u64, run_id: &str) -> (r: String)
    ensures
        r@ == "start-003-"@ + strategy_label(strategy) + "-"@ + decimal(records as nat) + "-seed"@
            + decimal(seed as nat) + "-"@ + run_id@,
{
    let mut r = in_a_row("start-003-", strategy.label(), "-");
    r.append(write_decimal(records).as_str());
    r.append("-seed");
    r.append(write_decimal(seed).as_str());
    r.append("-");
    r.append(run_id);
    r
}

/// A text as a cell of comma-separated values: quoted, with quotes doubled.
pub fn csv_cell(value: &str) -> (r: String)
    ensures
        r@ == "\""@ + replaced(value@, '"', "\"\""@) + "\""@,
{
    in_a_row("\"", replace_char(value, '"', "\"\"").as_str(), "\"")
}

/// An optional text as a cell of comma-separated values; empty if there is none.
pub fn csv_dimension(value: &Option<String>) -> (r: String)
    ensures
        r@ == (match value {
            Some(text) => "\""@ + replaced(text@, '"', "\"\""@) + "\""@,
            None => Seq::empty(),
        }),
{
    match value {
        Some(text) => csv_cell(text.as_str()),
        None => String::new(),
    }
}

/// A query as an unquoted cell of comma-separated values: without commas.
pub fn csv_query(query: &str) -> (r: String)
    ensures
        r@ == replaced(query@, ',', "_"@),
{
    replace_char(query, ',', "_")
}

/// The path of a report, with forward slashes.
pub fn artifact_path(path: &str) -> (r: String)
    ensures
        r@ == replaced(path@, '\\', "/"@),
{
    replace_char(path, '\\', "/")
}

/// The checksum of a report, in hexadecimal.
pub fn artifact_sha256(content: &Vec<u8>) -> (r: String)
    ensures
        r@ == hex(sha256(content@)),
{
    hex_text(digest(content).as_slice())
}

/// What a report says of a case whose true hits fit the candidate limit, or do not.
pub fn budget_label(within_candidate_budget: bool) -> (r: &'static str)
    ensures
        r@ == (if within_candidate_budget {
            "supported"@
        } else {
            "diagnostic"@
        }),
{
    if within_candidate_budget {
        "supported"
    } else {
        "diagnostic"
    }
}

/// What a reader of the comparison has to know.
pub fn benchmark_notes() -> (r: Vec<String>)
    ensures
        texts(r@) == seq![
            "No strategy is selected by this report; ENGINEERING-GATE-001 review owns the decision."@,
            "Dataset records come unchanged from localsearch-benchmark-data DATASET_VERSION=1."@,
            "Rare/common/worst-case labels are deterministic workload classes, not estimates from private filenames."@,
            "Peak RAM is a best-effort sampled process physical-memory high-water mark."@,
            "Bounded fourgram intentionally uses lexical fallback for three-character queries; recall impact is a reviewed tradeoff."@,
        ],
{
    let r = vec![
        "No strategy is selected by this report; ENGINEERING-GATE-001 review owns the decision.".to_owned(),
        "Dataset records come unchanged from localsearch-benchmark-data DATASET_VERSION=1.".to_owned(),
        "Rare/common/worst-case labels are deterministic workload classes, not estimates from private filenames.".to_owned(),
        "Peak RAM is a best-effort sampled process physical-memory high-water mark.".to_owned(),
        "Bounded fourgram intentionally uses lexical fallback for three-character queries; recall impact is a reviewed tradeoff.".to_owned(),
    ];
    assert(texts(r@) =~= seq![
            "No strategy is selected by this report; ENGINEERING-GATE-001 review owns the decision."@,
            "Dataset records come unchanged from localsearch-benchmark-data DATASET_VERSION=1."@,
            "Rare/common/worst-case labels are deterministic workload classes, not estimates from private filenames."@,
            "Peak RAM is a best-effort sampled process physical-memory high-water mark."@,
            "Bounded fourgram intentionally uses lexical fallback for three-character queries; recall impact is a reviewed tradeoff."@,
    ]);
    r
}

} // verus!
