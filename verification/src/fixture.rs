//! The filesystem fixture: its command line, its scope, and what it measures of a changing volume.

pub mod laws;
pub mod session;

use vstd::prelude::*;

use crate::catalog::{CatalogDocument, DocumentModel, VolumeDescriptor};
use crate::decimal::{decimal, padded, parse_unsigned, parsed, write_decimal, write_padded};
use crate::ids::{DocumentId, FileKey, FileLinkId};
use crate::search::ranking::{occurs_at, starts_with_text};
use crate::text::{chars_of, in_a_row, optional_text, replace_char, replaced, same_text, texts};
use crate::windows::scan::{ascii_lowered, is_ntfs, require_ntfs};

verus! {

/// Version of the saved state.
pub const STATE_SCHEMA_VERSION: u32 = 1;

/// How the names of fixture directories start.
pub const FIXTURE_PREFIX: &'static str = "localsearch-ux-fixture-";

/// The label of a fixture volume.
pub const EXPECTED_LABEL: &'static str = "LS_TEST";

/// How often changes are read at most.
pub const MAX_CHANGE_PASSES: u32 = 128;

/// Changes that are read at once.
pub const CHANGE_BATCH_EVENTS: u32 = 4_096;

/// Nanoseconds to wait for changes at most.
pub const PUMP_DEADLINE_NS: u128 = 5_000_000_000;

/// Seconds of the shortest churn.
pub const MIN_CHURN_SECONDS: u64 = 60;

/// Seconds of the longest churn.
pub const MAX_CHURN_SECONDS: u64 = 1_800;

/// Milliseconds of a cycle, if nothing else is asked for.
pub const DEFAULT_CYCLE_MILLIS: u64 = 250;

/// A failure of the fixture.
#[derive(Clone, Debug, PartialEq, Eq)]
pub enum FixtureError {
    /// One that is said in words.
    Message(String),
    /// A text that is no number.
    NotANumber,
}

/// A failure as a mathematical value.
pub enum FixtureErrorModel {
    /// One that is said in words.
    Message(Seq<char>),
    /// A text that is no number.
    NotANumber,
}

impl View for FixtureError {
    type V = FixtureErrorModel;

    open spec fn view(&self) -> FixtureErrorModel {
        match *self {
            FixtureError::Message(text) => FixtureErrorModel::Message(text@),
            FixtureError::NotANumber => FixtureErrorModel::NotANumber,
        }
    }
}

/// A failure with this message.
pub open spec fn says(error: FixtureError, message: Seq<char>) -> bool {
    error@ == FixtureErrorModel::Message(message)
}

pub(crate) fn fails(message: &str) -> (r: FixtureError)
    ensures
        says(r, message@),
{
    FixtureError::Message(message.to_owned())
}

/// How the fixture is called.
pub fn usage() -> (r: &'static str)
    ensures
        r@ == usage_text(),
{
    "usage: localsearch-ux-fixture <init --volume L:\\ --run-root PATH | rename|move|delete|offline|online|pump|snapshot|verify|cleanup --state FILE | churn --state FILE --duration-seconds N --batch-files N [--cycle-interval-milliseconds N] [--projection-owner agent]>"
}

/// How the fixture is called.
pub open spec fn usage_text() -> Seq<char> {
    "usage: localsearch-ux-fixture <init --volume L:\\ --run-root PATH | rename|move|delete|offline|online|pump|snapshot|verify|cleanup --state FILE | churn --state FILE --duration-seconds N --batch-files N [--cycle-interval-milliseconds N] [--projection-owner agent]>"@
}

/// What the fixture does.
#[derive(Clone, Copy, Debug, PartialEq, Eq, Structural)]
pub enum FixtureOperation {
    /// Makes a fixture.
    Init,
    /// Renames a file.
    Rename,
    /// Moves a file.
    Move,
    /// Deletes a file.
    Delete,
    /// Notes that the volume is gone.
    Offline,
    /// Notes that the volume is back.
    Online,
    /// Changes files again and again.
    Churn,
    /// Reads changes.
    Pump,
    /// Says how far projections are.
    Snapshot,
    /// Compares the index with the graph.
    Verify,
    /// Removes the fixture.
    Cleanup,
}

/// The operation with a name.
pub open spec fn operation_named(name: Seq<char>) -> Option<FixtureOperation> {
    if name == "init"@ {
        Some(FixtureOperation::Init)
    } else if name == "rename"@ {
        Some(FixtureOperation::Rename)
    } else if name == "move"@ {
        Some(FixtureOperation::Move)
    } else if name == "delete"@ {
        Some(FixtureOperation::Delete)
    } else if name == "offline"@ {
        Some(FixtureOperation::Offline)
    } else if name == "online"@ {
        Some(FixtureOperation::Online)
    } else if name == "churn"@ {
        Some(FixtureOperation::Churn)
    } else if name == "pump"@ {
        Some(FixtureOperation::Pump)
    } else if name == "snapshot"@ {
        Some(FixtureOperation::Snapshot)
    } else if name == "verify"@ {
        Some(FixtureOperation::Verify)
    } else if name == "cleanup"@ {
        Some(FixtureOperation::Cleanup)
    } else {
        None
    }
}

/// Reads the name of an operation.
pub fn parse_operation(name: &str) -> (r: Result<FixtureOperation, FixtureError>)
    ensures
        match r {
            Ok(operation) => operation_named(name@) == Some(operation),
            Err(error) => operation_named(name@) is None && says(error, usage_text()),
        },
{
    if same_text(name, "init") {
        Ok(FixtureOperation::Init)
    } else if same_text(name, "rename") {
        Ok(FixtureOperation::Rename)
    } else if same_text(name, "move") {
        Ok(FixtureOperation::Move)
    } else if same_text(name, "delete") {
        Ok(FixtureOperation::Delete)
    } else if same_text(name, "offline") {
        Ok(FixtureOperation::Offline)
    } else if same_text(name, "online") {
        Ok(FixtureOperation::Online)
    } else if same_text(name, "churn") {
        Ok(FixtureOperation::Churn)
    } else if same_text(name, "pump") {
        Ok(FixtureOperation::Pump)
    } else if same_text(name, "snapshot") {
        Ok(FixtureOperation::Snapshot)
    } else if same_text(name, "verify") {
        Ok(FixtureOperation::Verify)
    } else if same_text(name, "cleanup") {
        Ok(FixtureOperation::Cleanup)
    } else {
        Err(fails(usage()))
    }
}

/// Options as a mathematical value.
pub open spec fn option_models(options: Seq<(String, String)>) -> Seq<(Seq<char>, Seq<char>)> {
    Seq::new(options.len(), |i: int| (options[i].0@, options[i].1@))
}

/// Names and values, in turn.
pub open spec fn paired(arguments: Seq<Seq<char>>) -> Seq<(Seq<char>, Seq<char>)> {
    Seq::new((arguments.len() / 2) as nat, |i: int| (arguments[2 * i], arguments[2 * i + 1]))
}

/// Reads options: names and values, in turn.
pub fn parse_options(arguments: Vec<String>) -> (r: Result<Vec<(String, String)>, FixtureError>)
    ensures
        match r {
            Ok(options) => arguments@.len() % 2 == 0 && option_models(options@) == paired(
                texts(arguments@),
            ),
            Err(error) => arguments@.len() % 2 == 1 && says(
                error,
                "missing value for "@ + arguments@.last()@,
            ),
        },
{
    let ghost all = texts(arguments@);
    let mut options: Vec<(String, String)> = Vec::new();
    let mut i: usize = 0;
    while i < arguments.len()
        invariant
            i <= arguments@.len(),
            i % 2 == 0,
            all == texts(arguments@),
            options@.len() == i / 2,
            forall|k: int|
                0 <= k < options@.len() ==> (#[trigger] options@[k]).0@ == all[2 * k]
                    && options@[k].1@ == all[2 * k + 1],
        decreases arguments@.len() - i,
    {
        if arguments.len() - i < 2 {
            let mut message = "missing value for ".to_owned();
            message.append(arguments[i].as_str());
            return Err(FixtureError::Message(message));
        }
        assert(all[i as int] == arguments@[i as int]@);
        assert(all[i + 1] == arguments@[i + 1]@);
        options.push((arguments[i].clone(), arguments[i + 1].clone()));
        i = i + 2;
    }
    assert(option_models(options@) =~= paired(all));
    Ok(options)
}

/// The first value with a name.
pub open spec fn option_value(options: Seq<(Seq<char>, Seq<char>)>, name: Seq<char>) -> Option<
    Seq<char>,
>
    decreases options.len(),
{
    if options.len() == 0 {
        None
    } else if options[0].0 == name {
        Some(options[0].1)
    } else {
        option_value(options.drop_first(), name)
    }
}

proof fn lemma_option_value(options: Seq<(Seq<char>, Seq<char>)>, name: Seq<char>, at: int)
    requires
        0 <= at <= options.len(),
        forall|i: int| 0 <= i < at ==> (#[trigger] options[i]).0 != name,
        at < options.len() ==> options[at].0 == name,
    ensures
        option_value(options, name) == (if at < options.len() {
            Some(options[at].1)
        } else {
            None
        }),
    decreases options.len(),
{
    if at > 0 {
        let rest = options.drop_first();
        assert(options[0].0 != name);
        assert forall|i: int| 0 <= i < at - 1 implies (#[trigger] rest[i]).0 != name by {
            assert(rest[i] == options[i + 1]);
        }
        lemma_option_value(rest, name, at - 1);
    }
}

/// The first value with a name.
pub fn optional(options: &Vec<(String, String)>, name: &str) -> (r: Option<String>)
    ensures
        optional_text(r) == option_value(option_models(options@), name@),
{
    let ghost models = option_models(options@);
    let mut i: usize = 0;
    while i < options.len()
        invariant
            i <= options@.len(),
            models == option_models(options@),
            forall|k: int| 0 <= k < i ==> (#[trigger] models[k]).0 != name@,
        decreases options@.len() - i,
    {
        assert(models[i as int] == (options@[i as int].0@, options@[i as int].1@));
        if same_text(options[i].0.as_str(), name) {
            proof {
                lemma_option_value(models, name@, i as int);
            }
            return Some(options[i].1.clone());
        }
        i = i + 1;
    }
    proof {
        lemma_option_value(models, name@, i as int);
    }
    None
}

/// The first value with a name, which has to be there.
pub fn required(options: &Vec<(String, String)>, name: &str) -> (r: Result<String, FixtureError>)
    ensures
        match r {
            Ok(value) => option_value(option_models(options@), name@) == Some(value@),
            Err(error) => option_value(option_models(options@), name@) is None && says(
                error,
                name@ + " is required"@,
            ),
        },
{
    match optional(options, name) {
        Some(value) => Ok(value),
        None => {
            let mut message = name.to_owned();
            message.append(" is required");
            Err(FixtureError::Message(message))
        },
    }
}

/// What is said of a number outside its bounds.
pub open spec fn bounds_message(name: Seq<char>, minimum: u64, maximum: u64) -> Seq<char> {
    name + " must be between "@ + decimal(minimum as nat) + " and "@ + decimal(maximum as nat)
}

/// The number that a text is, if it lies within bounds.
pub open spec fn bounded(value: Seq<char>, minimum: u64, maximum: u64, name: Seq<char>) -> Result<
    nat,
    FixtureErrorModel,
> {
    match parsed(value, u64::MAX as nat) {
        Some(n) => if minimum <= n <= maximum {
            Ok(n)
        } else {
            Err(FixtureErrorModel::Message(bounds_message(name, minimum, maximum)))
        },
        None => Err(FixtureErrorModel::NotANumber),
    }
}

/// A number or a failure as a mathematical value.
pub open spec fn number_model(r: Result<u64, FixtureError>) -> Result<nat, FixtureErrorModel> {
    match r {
        Ok(n) => Ok(n as nat),
        Err(error) => Err(error@),
    }
}

/// Reads a number within bounds.
pub fn bounded_number(value: &str, minimum: u64, maximum: u64, name: &str) -> (r: Result<
    u64,
    FixtureError,
>)
    ensures
        number_model(r) == bounded(value@, minimum, maximum, name@),
{
    match parse_unsigned(value, u64::MAX) {
        Some(n) => {
            if n < minimum || n > maximum {
                let mut message = name.to_owned();
                message.append(" must be between ");
                message.append(write_decimal(minimum).as_str());
                message.append(" and ");
                message.append(write_decimal(maximum).as_str());
                return Err(FixtureError::Message(message));
            }
            Ok(n)
        },
        None => Err(FixtureError::NotANumber),
    }
}

/// What a churn is asked for.
#[derive(Clone, Copy, Debug, PartialEq, Eq, Structural)]
pub struct ChurnOptions {
    /// How long it takes.
    pub duration_seconds: u64,
    /// How many files change at once.
    pub batch_files: u64,
    /// How long a cycle takes at least.
    pub cycle_interval_millis: u64,
    /// Whether somebody else runs the projection.
    pub agent_owns_projection: bool,
}

/// A number that has to be there and to lie within bounds.
pub open spec fn bounded_option(
    options: Seq<(Seq<char>, Seq<char>)>,
    option: Seq<char>,
    minimum: u64,
    maximum: u64,
    name: Seq<char>,
) -> Result<nat, FixtureErrorModel> {
    match option_value(options, option) {
        Some(value) => bounded(value, minimum, maximum, name),
        None => Err(FixtureErrorModel::Message(option + " is required"@)),
    }
}

/// Reads a number that has to be there and to lie within bounds.
fn required_number(
    options: &Vec<(String, String)>,
    option: &str,
    minimum: u64,
    maximum: u64,
    name: &str,
) -> (r: Result<u64, FixtureError>)
    ensures
        number_model(r) == bounded_option(
            option_models(options@),
            option@,
            minimum,
            maximum,
            name@,
        ),
{
    match required(options, option) {
        Ok(value) => bounded_number(value.as_str(), minimum, maximum, name),
        Err(error) => Err(error),
    }
}

/// Whether somebody else runs the projection.
pub open spec fn owner_of(options: Seq<(Seq<char>, Seq<char>)>) -> Result<bool, FixtureErrorModel> {
    match option_value(options, "--projection-owner"@) {
        None => Ok(false),
        Some(value) => if value == "agent"@ {
            Ok(true)
        } else {
            Err(FixtureErrorModel::Message("unsupported projection owner: "@ + value))
        },
    }
}

fn parse_owner(options: &Vec<(String, String)>) -> (r: Result<bool, FixtureError>)
    ensures
        match r {
            Ok(owned) => owner_of(option_models(options@)) == Ok::<bool, FixtureErrorModel>(owned),
            Err(error) => owner_of(option_models(options@)) == Err::<bool, FixtureErrorModel>(
                error@,
            ),
        },
{
    match optional(options, "--projection-owner") {
        Some(value) => {
            if same_text(value.as_str(), "agent") {
                return Ok(true);
            }
            let mut message = "unsupported projection owner: ".to_owned();
            message.append(value.as_str());
            Err(FixtureError::Message(message))
        },
        None => Ok(false),
    }
}

/// How long a cycle takes at least.
pub open spec fn cycle_of(options: Seq<(Seq<char>, Seq<char>)>) -> Result<nat, FixtureErrorModel> {
    match option_value(options, "--cycle-interval-milliseconds"@) {
        Some(value) => bounded(value, 50, 5_000, "cycle-interval-milliseconds"@),
        None => Ok(DEFAULT_CYCLE_MILLIS as nat),
    }
}

/// The options of a churn. The first that is missing or wrong is reported.
pub open spec fn churn_of(options: Seq<(Seq<char>, Seq<char>)>) -> Result<
    ChurnOptions,
    FixtureErrorModel,
> {
    match bounded_option(
        options,
        "--duration-seconds"@,
        MIN_CHURN_SECONDS,
        MAX_CHURN_SECONDS,
        "duration-seconds"@,
    ) {
        Err(error) => Err(error),
        Ok(duration) => match bounded_option(options, "--batch-files"@, 1, 256, "batch-files"@) {
            Err(error) => Err(error),
            Ok(files) => match cycle_of(options) {
                Err(error) => Err(error),
                Ok(cycle) => match owner_of(options) {
                    Err(error) => Err(error),
                    Ok(owned) => Ok(
                        ChurnOptions {
                            duration_seconds: duration as u64,
                            batch_files: files as u64,
                            cycle_interval_millis: cycle as u64,
                            agent_owns_projection: owned,
                        },
                    ),
                },
            },
        },
    }
}

/// Reads the options of a churn.
pub fn churn_options(options: &Vec<(String, String)>) -> (r: Result<ChurnOptions, FixtureError>)
    ensures
        match r {
            Ok(churn) => churn_of(option_models(options@)) == Ok::<
                ChurnOptions,
                FixtureErrorModel,
            >(churn),
            Err(error) => churn_of(option_models(options@)) == Err::<
                ChurnOptions,
                FixtureErrorModel,
            >(error@),
        },
{
    let duration_seconds: u64 = match required_number(
        options,
        "--duration-seconds",
        MIN_CHURN_SECONDS,
        MAX_CHURN_SECONDS,
        "duration-seconds",
    ) {
        Ok(n) => n,
        Err(error) => return Err(error),
    };
    let batch_files: u64 = match required_number(options, "--batch-files", 1, 256, "batch-files") {
        Ok(n) => n,
        Err(error) => return Err(error),
    };
    let cycle_interval_millis: u64 = match optional(options, "--cycle-interval-milliseconds") {
        Some(value) => match bounded_number(
            value.as_str(),
            50,
            5_000,
            "cycle-interval-milliseconds",
        ) {
            Ok(n) => n,
            Err(error) => return Err(error),
        },
        None => DEFAULT_CYCLE_MILLIS,
    };
    let agent_owns_projection = match parse_owner(options) {
        Ok(owned) => owned,
        Err(error) => return Err(error),
    };
    Ok(
        ChurnOptions { duration_seconds, batch_files, cycle_interval_millis, agent_owns_projection },
    )
}

/// What came of reading changes once.
#[derive(Clone, Copy, Debug, PartialEq, Eq, Structural)]
pub struct PumpOutcome {
    /// Changes.
    pub emitted_events: u64,
    /// Mutations that waited to be projected.
    pub backlog_before_projection: u64,
    /// Mutations that were projected.
    pub applied_mutations: u64,
    /// How long that took.
    pub projection_micros: u64,
    /// Whether a projection ran.
    pub projection_run: bool,
}

/// What came of a churn.
#[derive(Clone, Copy, Debug, PartialEq, Eq, Structural)]
pub struct ChurnMetrics {
    /// Changes.
    pub provider_events: u64,
    /// Mutations that were projected.
    pub projection_mutations: u64,
    /// Projections that ran.
    pub projection_runs: u64,
    /// Most mutations that waited to be projected.
    pub maximum_backlog_mutations: u64,
    /// Longest projection.
    pub maximum_projection_micros: u64,
}

/// A sum, at most the largest number.
pub open spec fn summed(a: u64, b: u64) -> u64 {
    if a + b > u64::MAX {
        u64::MAX
    } else {
        (a + b) as u64
    }
}

/// The larger of two numbers.
pub open spec fn greatest(a: u64, b: u64) -> u64 {
    if a < b {
        b
    } else {
        a
    }
}

/// The metrics with one more outcome.
pub open spec fn recorded(m: ChurnMetrics, outcome: PumpOutcome) -> ChurnMetrics {
    ChurnMetrics {
        provider_events: summed(m.provider_events, outcome.emitted_events),
        projection_mutations: summed(m.projection_mutations, outcome.applied_mutations),
        projection_runs: summed(
            m.projection_runs,
            if outcome.projection_run {
                1
            } else {
                0
            },
        ),
        maximum_backlog_mutations: greatest(
            m.maximum_backlog_mutations,
            outcome.backlog_before_projection,
        ),
        maximum_projection_micros: greatest(
            m.maximum_projection_micros,
            outcome.projection_micros,
        ),
    }
}

impl Default for ChurnMetrics {
    fn default() -> (r: Self)
        ensures
            r == (ChurnMetrics {
                provider_events: 0,
                projection_mutations: 0,
                projection_runs: 0,
                maximum_backlog_mutations: 0,
                maximum_projection_micros: 0,
            }),
    {
        ChurnMetrics {
            provider_events: 0,
            projection_mutations: 0,
            projection_runs: 0,
            maximum_backlog_mutations: 0,
            maximum_projection_micros: 0,
        }
    }
}

fn larger(a: u64, b: u64) -> (r: u64)
    ensures
        r == greatest(a, b),
{
    if a < b {
        b
    } else {
        a
    }
}

impl ChurnMetrics {
    /// Takes one more outcome.
    pub fn record(&mut self, outcome: PumpOutcome)
        ensures
            *final(self) == recorded(*old(self), outcome),
    {
        self.provider_events = self.provider_events.saturating_add(outcome.emitted_events);
        self.projection_mutations = self.projection_mutations.saturating_add(
            outcome.applied_mutations,
        );
        self.projection_runs = self.projection_runs.saturating_add(
            if outcome.projection_run {
                1
            } else {
                0
            },
        );
        self.maximum_backlog_mutations = larger(
            self.maximum_backlog_mutations,
            outcome.backlog_before_projection,
        );
        self.maximum_projection_micros = larger(
            self.maximum_projection_micros,
            outcome.projection_micros,
        );
    }
}

/// The metrics never shrink, and keep the worst that was seen.
pub proof fn metrics_are_monotonic(m: ChurnMetrics, outcome: PumpOutcome)
    ensures
        ({
            let next = recorded(m, outcome);
            &&& next.provider_events >= m.provider_events
            &&& next.projection_mutations >= m.projection_mutations
            &&& next.projection_runs >= m.projection_runs
            &&& next.maximum_backlog_mutations >= m.maximum_backlog_mutations
            &&& next.maximum_backlog_mutations >= outcome.backlog_before_projection
            &&& next.maximum_projection_micros >= m.maximum_projection_micros
            &&& next.maximum_projection_micros >= outcome.projection_micros
        }),
{
}

/// What to do after changes were read.
#[derive(Clone, Copy, Debug, PartialEq, Eq, Structural)]
pub enum PumpStep {
    /// Read more at once.
    Continue,
    /// Wait, and read more.
    Wait,
    /// Enough was read.
    Drained,
    /// Too often.
    Exhausted,
}

/// The reading of changes until enough were seen.
#[derive(Clone, Copy, Debug, PartialEq, Eq, Structural)]
pub struct PumpProgress {
    /// Changes.
    pub emitted: u64,
    /// How often they were read.
    pub passes: u32,
    /// How many are enough.
    pub minimum_events: u64,
}

/// What to do after this many changes were read: enough were once there is no more and the minimum
/// was seen or the time is over; reading goes on a bounded number of times.
pub open spec fn step_after(p: PumpProgress, has_more: bool, elapsed_ns: u128) -> PumpStep {
    if !has_more && (p.emitted >= p.minimum_events || elapsed_ns >= PUMP_DEADLINE_NS) {
        PumpStep::Drained
    } else if p.passes == MAX_CHANGE_PASSES {
        PumpStep::Exhausted
    } else if has_more {
        PumpStep::Continue
    } else {
        PumpStep::Wait
    }
}

impl PumpProgress {
    /// Before anything was read.
    pub fn begin(minimum_events: u64) -> (r: PumpProgress)
        ensures
            r == (PumpProgress { emitted: 0, passes: 0, minimum_events }),
    {
        PumpProgress { emitted: 0, passes: 0, minimum_events }
    }

    /// Takes what was read: more is read at once as long as there is more; then it is enough if the
    /// minimum was seen or the time is over. It is read a bounded number of times.
    pub fn record(&mut self, emitted_events: u32, has_more: bool, elapsed_ns: u128) -> (r: PumpStep)
        requires
            old(self).passes < MAX_CHANGE_PASSES,
        ensures
            final(self).emitted == summed(old(self).emitted, emitted_events as u64),
            final(self).passes == old(self).passes + 1,
            final(self).minimum_events == old(self).minimum_events,
            r == step_after(*final(self), has_more, elapsed_ns),
    {
        self.emitted = self.emitted.saturating_add(emitted_events as u64);
        self.passes = self.passes + 1;
        if !has_more && (self.emitted >= self.minimum_events || elapsed_ns >= PUMP_DEADLINE_NS) {
            PumpStep::Drained
        } else if self.passes == MAX_CHANGE_PASSES {
            PumpStep::Exhausted
        } else if has_more {
            PumpStep::Continue
        } else {
            PumpStep::Wait
        }
    }
}

/// The name of a file of a churn.
pub open spec fn churn_text(sequence: u64) -> Seq<char> {
    "architecture-churn-"@ + padded(sequence as nat, 12) + ".md"@
}

/// The name of a file of a churn.
pub fn churn_name(sequence: u64) -> (r: String)
    ensures
        r@ == churn_text(sequence),
{
    in_a_row("architecture-churn-", write_padded(sequence, 12).as_str(), ".md")
}

/// The name of a file of a churn once it was renamed.
pub fn renamed_churn_name(name: &str) -> (r: String)
    ensures
        r@ == "renamed-"@ + name@,
{
    let mut r = "renamed-".to_owned();
    r.append(name);
    r
}

/// How many mutations wait to be projected.
pub open spec fn backlog(latest: u64, applied: u64) -> u64 {
    if latest > applied {
        (latest - applied) as u64
    } else {
        0
    }
}

/// How many mutations wait to be projected.
pub fn projection_backlog(latest: u64, applied: Option<u64>) -> (r: u64)
    ensures
        r == backlog(
            latest,
            match applied {
                Some(sequence) => sequence,
                None => 0,
            },
        ),
{
    match applied {
        Some(sequence) => latest.saturating_sub(sequence),
        None => latest,
    }
}

/// How far the projections are.
#[derive(Clone, Copy, Debug, PartialEq, Eq, Structural)]
pub struct ProjectionSnapshot {
    /// The last mutation.
    pub latest_sequence: u64,
    /// The last one in the catalog.
    pub catalog_sequence: u64,
    /// The last one in the content index, if there is one.
    pub content_sequence: Option<u64>,
    /// Mutations that wait for the catalog.
    pub catalog_backlog: u64,
    /// Mutations that wait for the content index.
    pub content_backlog: Option<u64>,
    /// The larger of the two.
    pub maximum_backlog: u64,
}

/// Says how far the projections are.
pub fn projection_snapshot(latest: u64, catalog: Option<u64>, content: Option<u64>) -> (r:
    ProjectionSnapshot)
    ensures
        ({
            let applied = match catalog {
                Some(sequence) => sequence,
                None => 0,
            };
            let waiting = match content {
                Some(sequence) => Some(backlog(latest, sequence)),
                None => None,
            };
            r == (ProjectionSnapshot {
                latest_sequence: latest,
                catalog_sequence: applied,
                content_sequence: content,
                catalog_backlog: backlog(latest, applied),
                content_backlog: waiting,
                maximum_backlog: match waiting {
                    Some(value) => greatest(backlog(latest, applied), value),
                    None => backlog(latest, applied),
                },
            })
        }),
{
    let catalog_sequence: u64 = match catalog {
        Some(sequence) => sequence,
        None => 0,
    };
    let catalog_backlog: u64 = latest.saturating_sub(catalog_sequence);
    let content_backlog = match content {
        Some(sequence) => Some(latest.saturating_sub(sequence)),
        None => None,
    };
    let maximum_backlog: u64 = match content_backlog {
        Some(value) => larger(catalog_backlog, value),
        None => catalog_backlog,
    };
    ProjectionSnapshot {
        latest_sequence: latest,
        catalog_sequence,
        content_sequence: content,
        catalog_backlog,
        content_backlog,
        maximum_backlog,
    }
}

/// A letter of a drive other than the system drive.
pub open spec fn is_fixture_drive(c: char) -> bool {
    ('a' <= c <= 'z' || 'A' <= c <= 'Z') && c != 'c' && c != 'C'
}

/// The root of a drive other than the system drive.
pub open spec fn is_fixture_root(path: Seq<char>) -> bool {
    path.len() == 3 && is_fixture_drive(path[0]) && path[1] == ':' && (path[2] == '\\' || path[2]
        == '/')
}

/// Checks that a path is the root of a drive other than the system drive.
pub fn validate_volume_root(path: &str) -> (r: Result<String, FixtureError>)
    ensures
        match r {
            Ok(root) => is_fixture_root(path@) && root@ == seq![path@[0], ':', '\\'],
            Err(error) => !is_fixture_root(path@) && says(
                error,
                "fixture requires a non-C drive root such as L:\\"@,
            ),
        },
{
    let chars = chars_of(path);
    if chars.len() != 3 {
        return Err(fails("fixture requires a non-C drive root such as L:\\"));
    }
    let c: char = chars[0];
    if !(('a' <= c && c <= 'z') || ('A' <= c && c <= 'Z')) || c == 'c' || c == 'C' || chars[1]
        != ':' || (chars[2] != '\\' && chars[2] != '/') {
        return Err(fails("fixture requires a non-C drive root such as L:\\"));
    }
    let mut root = String::new();
    root.push(c);
    root.push(':');
    root.push('\\');
    assert(root@ =~= seq![path@[0], ':', '\\']);
    Ok(root)
}

/// The directory may be removed: it lies directly in the root of the volume, whichever slashes
/// either is written with, and its name says that it is a fixture.
pub open spec fn is_removable(
    volume: Seq<char>,
    parent: Option<Seq<char>>,
    name: Option<Seq<char>>,
) -> bool {
    (parent matches Some(path) && replaced(path, '\\', "/"@) == replaced(volume, '\\', "/"@)) && (
    name matches Some(text) && occurs_at(text, FIXTURE_PREFIX@, 0))
}

/// The view of an optional text slice.
pub open spec fn slice_text(text: Option<&str>) -> Option<Seq<char>> {
    match text {
        Some(value) => Some(value@),
        None => None,
    }
}

/// Checks that a directory may be removed, given the directory it lies in and its name.
pub fn validate_cleanup_target(volume: &str, parent: Option<&str>, name: Option<&str>) -> (r:
    Result<(), FixtureError>)
    ensures
        match r {
            Ok(()) => is_removable(volume@, slice_text(parent), slice_text(name)),
            Err(error) => !is_removable(volume@, slice_text(parent), slice_text(name)) && says(
                error,
                "fixture target is outside the explicitly selected volume root"@,
            ),
        },
{
    let inside = match parent {
        Some(path) => same_text(
            replace_char(path, '\\', "/").as_str(),
            replace_char(volume, '\\', "/").as_str(),
        ),
        None => false,
    };
    let named = match name {
        Some(text) => starts_with_text(text, FIXTURE_PREFIX),
        None => false,
    };
    if inside && named {
        Ok(())
    } else {
        Err(fails("fixture target is outside the explicitly selected volume root"))
    }
}

/// Checks a saved state: its version first, then its directory.
pub fn validate_state(
    schema_version: u32,
    volume: &str,
    parent: Option<&str>,
    name: Option<&str>,
) -> (r: Result<(), FixtureError>)
    ensures
        match r {
            Ok(()) => schema_version == STATE_SCHEMA_VERSION && is_removable(
                volume@,
                slice_text(parent),
                slice_text(name),
            ),
            Err(error) => if schema_version != STATE_SCHEMA_VERSION {
                says(error, "unsupported fixture state version"@)
            } else {
                !is_removable(volume@, slice_text(parent), slice_text(name)) && says(
                    error,
                    "fixture target is outside the explicitly selected volume root"@,
                )
            },
        },
{
    if schema_version != STATE_SCHEMA_VERSION {
        return Err(fails("unsupported fixture state version"));
    }
    validate_cleanup_target(volume, parent, name)
}

/// A text without the slashes at its end.
pub open spec fn without_slashes(text: Seq<char>) -> Seq<char>
    decreases text.len(),
{
    if text.len() > 0 && text.last() == '/' {
        without_slashes(text.drop_last())
    } else {
        text
    }
}

/// A path as it is compared.
pub open spec fn comparable(path: Seq<char>) -> Seq<char> {
    without_slashes(replaced(path, '\\', "/"@))
}

/// A path as it is compared: with forward slashes, none at the end.
pub fn comparable_text(value: &str) -> (r: String)
    ensures
        r@ == comparable(value@),
{
    let slashed = replace_char(value, '\\', "/");
    let chars = chars_of(slashed.as_str());
    let ghost all = chars@;
    let mut end: usize = chars.len();
    assert(all.take(end as int) =~= all);
    while end > 0 && chars[end - 1] == '/'
        invariant
            end <= chars@.len(),
            chars@ == all,
            without_slashes(all.take(end as int)) == without_slashes(all),
        decreases end,
    {
        assert(all.take(end as int).drop_last() =~= all.take(end - 1));
        end = end - 1;
    }
    let mut r = String::new();
    let mut i: usize = 0;
    while i < end
        invariant
            i <= end <= chars@.len(),
            chars@ == all,
            r@ =~= all.take(i as int),
        decreases end - i,
    {
        r.push(chars[i]);
        i = i + 1;
    }
    r
}

/// A path is a root or lies below it: not merely beside it with a longer name.
pub open spec fn is_within(root: Seq<char>, candidate: Seq<char>) -> bool {
    let (a, b) = (comparable(root), comparable(candidate));
    a == b || (occurs_at(b, a, 0) && b.len() > a.len() && b[a.len() as int] == '/')
}

/// Whether a path is a root or lies below it.
pub fn path_is_within(root: &str, candidate: &str) -> (r: bool)
    ensures
        r == is_within(root@, candidate@),
{
    let above = comparable_text(root);
    let below = comparable_text(candidate);
    if same_text(above.as_str(), below.as_str()) {
        return true;
    }
    if !starts_with_text(below.as_str(), above.as_str()) {
        return false;
    }
    let length: usize = chars_of(above.as_str()).len();
    let chars = chars_of(below.as_str());
    length < chars.len() && chars[length] == '/'
}

/// A path lies within itself; a path that goes on after the root with anything but a separator
/// lies outside.
pub proof fn siblings_are_outside(root: Seq<char>, candidate: Seq<char>, next: char)
    requires
        next != '/',
        comparable(candidate).len() > comparable(root).len(),
        comparable(candidate)[comparable(root).len() as int] == next,
    ensures
        is_within(root, root),
        !is_within(root, candidate),
{
}

/// A document of the fixture.
#[derive(Clone, Debug, PartialEq, Eq)]
pub struct FixtureDocument {
    /// Its name.
    pub name: String,
    /// Its path.
    pub path: String,
    /// Its document.
    pub document_id: DocumentId,
    /// Its object.
    pub object_key: FileKey,
    /// Its link.
    pub file_link_id: FileLinkId,
}

/// The document of the fixture is that of the catalog.
pub open spec fn describes(r: FixtureDocument, document: DocumentModel) -> bool {
    &&& r.name@ == document.name
    &&& r.path@ == document.resolved_path
    &&& r.document_id == document.identity.document_id
    &&& r.object_key == document.identity.object_key
    &&& r.file_link_id == document.identity.file_link_id
}

fn describe(document: &CatalogDocument) -> (r: FixtureDocument)
    ensures
        describes(r, document@),
{
    FixtureDocument {
        name: document.name.clone(),
        path: document.resolved_path.clone(),
        document_id: document.identity.document_id,
        object_key: document.identity.object_key,
        file_link_id: document.identity.file_link_id,
    }
}

/// A document that was renamed or moved kept its identity and has the path that is expected.
pub open spec fn kept_identity(
    document: DocumentModel,
    stale: FixtureDocument,
    expected_path: Seq<char>,
) -> bool {
    &&& document.identity.object_key == stale.object_key
    &&& document.identity.file_link_id == stale.file_link_id
    &&& comparable(document.resolved_path) == comparable(expected_path)
}

/// A document that was renamed or moved, or what is wrong with it.
pub open spec fn is_current(
    r: Result<FixtureDocument, FixtureError>,
    document: Option<DocumentModel>,
    stale: FixtureDocument,
    expected_path: Seq<char>,
) -> bool {
    match document {
        None => r matches Err(error) && says(
            error,
            "stable document identity disappeared after rename or move"@,
        ),
        Some(found) => if kept_identity(found, stale, expected_path) {
            r matches Ok(current) && describes(current, found)
        } else {
            r matches Err(error) && says(
                error,
                "rename or move did not preserve identity and current path"@,
            )
        },
    }
}

/// An optional document as a mathematical value.
pub open spec fn document_model(document: Option<CatalogDocument>) -> Option<DocumentModel> {
    match document {
        Some(value) => Some(value@),
        None => None,
    }
}

/// Checks a document that was renamed or moved.
pub fn check_current_document(
    document: Option<CatalogDocument>,
    stale: &FixtureDocument,
    expected_path: &str,
) -> (r: Result<FixtureDocument, FixtureError>)
    ensures
        is_current(r, document_model(document), *stale, expected_path@),
{
    match document {
        None => Err(fails("stable document identity disappeared after rename or move")),
        Some(found) => {
            let path = comparable_text(found.resolved_path.as_str());
            let expected = comparable_text(expected_path);
            if found.identity.object_key == stale.object_key && found.identity.file_link_id
                == stale.file_link_id && same_text(path.as_str(), expected.as_str()) {
                Ok(describe(&found))
            } else {
                Err(fails("rename or move did not preserve identity and current path"))
            }
        },
    }
}

/// The document has a name and lies below a root.
pub open spec fn is_fixture_document(
    document: DocumentModel,
    root: Seq<char>,
    name: Seq<char>,
) -> bool {
    document.name == name && is_within(root, document.resolved_path)
}

/// The only document is the one at `i`.
pub open spec fn is_only_document(
    documents: Seq<CatalogDocument>,
    i: int,
    root: Seq<char>,
    name: Seq<char>,
) -> bool {
    &&& 0 <= i < documents.len()
    &&& forall|k: int|
        0 <= k < documents.len() ==> (is_fixture_document((#[trigger] documents[k])@, root, name)
            <==> k == i)
}

/// The only document with a name below a root.
pub fn fixture_document(documents: &Vec<CatalogDocument>, root: &str, name: &str) -> (r: Result<
    FixtureDocument,
    FixtureError,
>)
    ensures
        match r {
            Ok(found) => exists|i: int| #[trigger]
                is_only_document(documents@, i, root@, name@) && describes(found, documents@[i]@),
            Err(error) => (forall|i: int| !#[trigger]
                is_only_document(documents@, i, root@, name@)) && says(
                error,
                "expected exactly one fixture document named "@ + name@,
            ),
        },
{
    let mut found: Option<usize> = None;
    let mut several = false;
    let mut k: usize = 0;
    while k < documents.len() && !several
        invariant
            k <= documents@.len(),
            !several ==> match found {
                Some(i) => i < k && forall|j: int|
                    0 <= j < k ==> (is_fixture_document((#[trigger] documents@[j])@, root@, name@)
                        <==> j == i),
                None => forall|j: int|
                    0 <= j < k ==> !is_fixture_document((#[trigger] documents@[j])@, root@, name@),
            },
            several ==> exists|i: int, j: int|
                0 <= i < j < documents@.len() && is_fixture_document(
                    (#[trigger] documents@[i])@,
                    root@,
                    name@,
                ) && is_fixture_document((#[trigger] documents@[j])@, root@, name@),
        decreases documents@.len() - k,
    {
        let document = &documents[k];
        if same_text(document.name.as_str(), name) && path_is_within(
            root,
            document.resolved_path.as_str(),
        ) {
            assert(is_fixture_document(documents@[k as int]@, root@, name@));
            if let Some(i) = found {
                assert(is_fixture_document(documents@[i as int]@, root@, name@));
                several = true;
            } else {
                found = Some(k);
            }
        }
        k = k + 1;
    }
    if !several {
        if let Some(i) = found {
            assert(is_only_document(documents@, i as int, root@, name@));
            return Ok(describe(&documents[i]));
        }
    }
    let mut message = "expected exactly one fixture document named ".to_owned();
    message.append(name);
    proof {
        assert forall|i: int| !#[trigger] is_only_document(documents@, i, root@, name@) by {
            if is_only_document(documents@, i, root@, name@) {
                if several {
                    let (a, b) = choose|a: int, b: int|
                        0 <= a < b < documents@.len() && is_fixture_document(
                            (#[trigger] documents@[a])@,
                            root@,
                            name@,
                        ) && is_fixture_document((#[trigger] documents@[b])@, root@, name@);
                    assert(is_fixture_document(documents@[a]@, root@, name@));
                    assert(is_fixture_document(documents@[b]@, root@, name@));
                } else {
                    assert(is_fixture_document(documents@[i]@, root@, name@));
                }
            }
        }
    }
    Err(FixtureError::Message(message))
}

/// The volume may be used: a local one with the right filesystem and label.
pub open spec fn is_fixture_volume(volume: VolumeDescriptor) -> bool {
    &&& volume@.display_name == Some(EXPECTED_LABEL@)
    &&& is_ntfs(volume@.filesystem)
    &&& volume.local
}

/// Checks that a volume may be used.
pub fn check_fixture_volume(volume: &VolumeDescriptor) -> (r: Result<(), FixtureError>)
    ensures
        match r {
            Ok(()) => is_fixture_volume(*volume),
            Err(error) => !is_fixture_volume(*volume) && says(
                error,
                "fixture refuses a volume that is not local NTFS labelled LS_TEST"@,
            ),
        },
{
    let labelled = match &volume.display_name {
        Some(label) => same_text(label.as_str(), EXPECTED_LABEL),
        None => false,
    };
    let supported = match require_ntfs(volume) {
        Ok(()) => true,
        Err(_) => false,
    };
    if labelled && supported && volume.local {
        Ok(())
    } else {
        Err(fails("fixture refuses a volume that is not local NTFS labelled LS_TEST"))
    }
}

/// Two texts are the same but for the case of their letters.
pub open spec fn same_but_for_case(a: Seq<char>, b: Seq<char>) -> bool {
    a.len() == b.len() && forall|i: int|
        0 <= i < a.len() ==> ascii_lowered(#[trigger] a[i]) == ascii_lowered(b[i])
}

fn lowered(c: char) -> (r: char)
    ensures
        r == ascii_lowered(c),
{
    if 'A' <= c && c <= 'Z' {
        ((c as u8) + 32) as char
    } else {
        c
    }
}

fn equal_but_for_case(a: &str, b: &str) -> (r: bool)
    ensures
        r == same_but_for_case(a@, b@),
{
    let left = chars_of(a);
    let right = chars_of(b);
    if left.len() != right.len() {
        return false;
    }
    let mut i: usize = 0;
    while i < left.len()
        invariant
            i <= left@.len(),
            left@ == a@,
            right@ == b@,
            left@.len() == right@.len(),
            forall|k: int|
                0 <= k < i ==> ascii_lowered(#[trigger] a@[k]) == ascii_lowered(b@[k]),
        decreases left@.len() - i,
    {
        if lowered(left[i]) != lowered(right[i]) {
            assert(ascii_lowered(a@[i as int]) != ascii_lowered(b@[i as int]));
            return false;
        }
        i = i + 1;
    }
    true
}

/// The volume is mounted at a place.
pub open spec fn is_mounted_at(volume: VolumeDescriptor, mount: Seq<char>) -> bool {
    exists|i: int|
        0 <= i < volume.mount_points@.len() && same_but_for_case(
            (#[trigger] volume.mount_points@[i])@,
            mount,
        )
}

fn mounted_at(volume: &VolumeDescriptor, mount: &str) -> (r: bool)
    ensures
        r == is_mounted_at(*volume, mount@),
{
    let mut i: usize = 0;
    while i < volume.mount_points.len()
        invariant
            i <= volume.mount_points@.len(),
            forall|k: int|
                0 <= k < i ==> !same_but_for_case((#[trigger] volume.mount_points@[k])@, mount@),
        decreases volume.mount_points@.len() - i,
    {
        if equal_but_for_case(volume.mount_points[i].as_str(), mount) {
            assert(same_but_for_case(volume.mount_points@[i as int]@, mount@));
            return true;
        }
        i = i + 1;
    }
    false
}

/// The volume that is mounted at a place, if it may be used.
pub fn discover_fixture_volume(volumes: &Vec<VolumeDescriptor>, mount: &str) -> (r: Result<
    usize,
    FixtureError,
>)
    ensures
        match r {
            Ok(i) => {
                &&& i < volumes@.len()
                &&& is_mounted_at(volumes@[i as int], mount@)
                &&& is_fixture_volume(volumes@[i as int])
                &&& forall|k: int| 0 <= k < i ==> !is_mounted_at(#[trigger] volumes@[k], mount@)
            },
            Err(error) => {
                ||| (forall|k: int|
                    0 <= k < volumes@.len() ==> !is_mounted_at(#[trigger] volumes@[k], mount@))
                    && says(error, "fixture volume was not discovered"@)
                ||| says(error, "fixture refuses a volume that is not local NTFS labelled LS_TEST"@)
                    && exists|i: int|
                    {
                        &&& 0 <= i < volumes@.len()
                        &&& is_mounted_at(#[trigger] volumes@[i], mount@)
                        &&& !is_fixture_volume(volumes@[i])
                        &&& forall|k: int|
                            0 <= k < i ==> !is_mounted_at(#[trigger] volumes@[k], mount@)
                    }
            },
        },
{
    let mut i: usize = 0;
    while i < volumes.len()
        invariant
            i <= volumes@.len(),
            forall|k: int| 0 <= k < i ==> !is_mounted_at(#[trigger] volumes@[k], mount@),
        decreases volumes@.len() - i,
    {
        if mounted_at(&volumes[i], mount) {
            assert(is_mounted_at(volumes@[i as int], mount@));
            return match check_fixture_volume(&volumes[i]) {
                Ok(()) => Ok(i),
                Err(error) => Err(error),
            };
        }
        i = i + 1;
    }
    Err(fails("fixture volume was not discovered"))
}

/// Attempts at a projection.
pub const MAX_PROJECTION_ATTEMPTS: u64 = 50;

/// Whether a projection that failed is tried again: only where the catalog failed, which may be
/// held for a moment, and not after the last attempt.
pub fn after_projection(attempt: u64, catalog_error: bool) -> (retry: bool)
    ensures
        retry == (catalog_error && attempt + 1 < MAX_PROJECTION_ATTEMPTS),
{
    catalog_error && attempt < MAX_PROJECTION_ATTEMPTS - 1
}

/// Whether the index holds what it should: the documents match, and none is there twice.
pub fn has_converged(payloads_match: bool, duplicates: u64) -> (r: bool)
    ensures
        r == (payloads_match && duplicates == 0),
{
    payloads_match && duplicates == 0
}

} // verus!
