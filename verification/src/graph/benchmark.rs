//! A benchmark of the graph: the batches that it applies, what it expects of the graph, and what it
//! measures.

pub mod laws;

use vstd::prelude::*;

use crate::catalog::{
    Availability, CheckpointModel, DescriptorModel, FileKind, FileLinkSnapshot, FileMetadata,
    FileObjectSnapshot, FilesystemEvent, LinkSnapshotModel, ProviderCheckpoint, VolumeDescriptor,
};
use crate::decimal::{decimal, padded, parse_unsigned, parsed, write_decimal, write_padded};
use crate::graph::domain::{
    mutations_of, ApplySummary, BatchModel, GraphMutation, GraphMutationBatch, GraphStats,
    MutationModel,
};
use crate::ids::{FileId128, FileKey, FileLinkId, VolumeId};
use crate::search::measure::{ascending, sort_ascending, whole, Quantity, Ratio};
use crate::search::report::{percentile_value, percentile_value_of};
use crate::text::{in_a_row, same_text, texts};
use crate::windows::identity::{big_endian, push_big_endian};

verus! {

/// Records that are applied at once.
pub const BATCH_RECORDS: u64 = 5_000;

/// How often a change is timed.
pub const LATENCY_SAMPLES: u64 = 100;

/// How often a path is resolved on an open graph.
pub const WARM_RESOLVE_SAMPLES: u64 = 1_000;

/// How often a path is resolved on a graph that was just opened.
pub const COLD_RESOLVE_SAMPLES: u64 = 30;

/// Most records, so that every checkpoint has a number.
pub const MAXIMUM_RECORDS: u64 = 18_446_744_073_709_531_615;

/// Why the benchmark cannot go on.
#[derive(Clone, Debug, PartialEq, Eq)]
pub enum BenchmarkError {
    /// Something that is said in words.
    Message(String),
    /// A text that is no number.
    NotANumber,
}

/// Why the benchmark cannot go on, as a mathematical value.
pub enum BenchmarkErrorModel {
    /// Something that is said in words.
    Message(Seq<char>),
    /// A text that is no number.
    NotANumber,
}

impl View for BenchmarkError {
    type V = BenchmarkErrorModel;

    open spec fn view(&self) -> BenchmarkErrorModel {
        match *self {
            BenchmarkError::Message(text) => BenchmarkErrorModel::Message(text@),
            BenchmarkError::NotANumber => BenchmarkErrorModel::NotANumber,
        }
    }
}

/// A failure with this message.
pub open spec fn says(error: BenchmarkError, message: Seq<char>) -> bool {
    error@ == BenchmarkErrorModel::Message(message)
}

fn fails(message: &str) -> (r: BenchmarkError)
    ensures
        says(r, message@),
{
    BenchmarkError::Message(message.to_owned())
}

/// What the benchmark is asked for.
#[derive(Clone, Debug, PartialEq, Eq)]
pub struct Arguments {
    /// Records.
    pub records: u64,
    /// Seed of the generator.
    pub seed: u64,
    /// Where the database is.
    pub database: String,
    /// Where the reports go.
    pub output_directory: String,
}

/// What the benchmark is asked for, as a mathematical value.
pub struct ArgumentsModel {
    pub records: u64,
    pub seed: u64,
    pub database: Seq<char>,
    pub output_directory: Seq<char>,
}

impl View for Arguments {
    type V = ArgumentsModel;

    open spec fn view(&self) -> ArgumentsModel {
        ArgumentsModel {
            records: self.records,
            seed: self.seed,
            database: self.database@,
            output_directory: self.output_directory@,
        }
    }
}

/// What the benchmark does if nothing is asked for.
pub open spec fn default_arguments() -> ArgumentsModel {
    ArgumentsModel {
        records: 1_000_000,
        seed: 20_260_814,
        database: ".lab/start-005-graph.sqlite3"@,
        output_directory: "reports/benchmarks/start-005"@,
    }
}

/// The arguments with one more option.
pub open spec fn with_option(m: ArgumentsModel, option: Seq<char>, value: Seq<char>) -> Result<
    ArgumentsModel,
    BenchmarkErrorModel,
> {
    if option == "--records"@ {
        match parsed(value, u64::MAX as nat) {
            Some(n) => Ok(ArgumentsModel { records: n as u64, ..m }),
            None => Err(BenchmarkErrorModel::NotANumber),
        }
    } else if option == "--seed"@ {
        match parsed(value, u64::MAX as nat) {
            Some(n) => Ok(ArgumentsModel { seed: n as u64, ..m }),
            None => Err(BenchmarkErrorModel::NotANumber),
        }
    } else if option == "--database"@ {
        Ok(ArgumentsModel { database: value, ..m })
    } else if option == "--output"@ {
        Ok(ArgumentsModel { output_directory: value, ..m })
    } else {
        Err(BenchmarkErrorModel::Message("unknown benchmark option: "@ + option))
    }
}

/// The arguments with every option from a place on.
pub open spec fn with_options(m: ArgumentsModel, all: Seq<Seq<char>>, from: int) -> Result<
    ArgumentsModel,
    BenchmarkErrorModel,
>
    decreases all.len() - from,
{
    if from >= all.len() {
        Ok(m)
    } else if from + 1 >= all.len() {
        Err(BenchmarkErrorModel::Message("every benchmark option requires a value"@))
    } else {
        match with_option(m, all[from], all[from + 1]) {
            Ok(next) => with_options(next, all, from + 2),
            Err(error) => Err(error),
        }
    }
}

/// The arguments that are used: there has to be a record.
pub open spec fn arguments_of(all: Seq<Seq<char>>) -> Result<ArgumentsModel, BenchmarkErrorModel> {
    match with_options(default_arguments(), all, 0) {
        Ok(m) => if m.records == 0 {
            Err(BenchmarkErrorModel::Message("--records must be greater than zero"@))
        } else {
            Ok(m)
        },
        Err(error) => Err(error),
    }
}

fn apply_option(arguments: Arguments, option: &str, value: &str) -> (r: Result<
    Arguments,
    BenchmarkError,
>)
    ensures
        match r {
            Ok(next) => with_option(arguments@, option@, value@) == Ok::<
                ArgumentsModel,
                BenchmarkErrorModel,
            >(next@),
            Err(error) => with_option(arguments@, option@, value@) == Err::<
                ArgumentsModel,
                BenchmarkErrorModel,
            >(error@),
        },
{
    let mut next = arguments;
    if same_text(option, "--records") {
        match parse_unsigned(value, u64::MAX) {
            Some(n) => next.records = n,
            None => return Err(BenchmarkError::NotANumber),
        }
    } else if same_text(option, "--seed") {
        match parse_unsigned(value, u64::MAX) {
            Some(n) => next.seed = n,
            None => return Err(BenchmarkError::NotANumber),
        }
    } else if same_text(option, "--database") {
        next.database = value.to_owned();
    } else if same_text(option, "--output") {
        next.output_directory = value.to_owned();
    } else {
        let mut message = "unknown benchmark option: ".to_owned();
        message.append(option);
        return Err(BenchmarkError::Message(message));
    }
    Ok(next)
}

/// Reads the command line.
pub fn parse_arguments(arguments: &Vec<String>) -> (r: Result<Arguments, BenchmarkError>)
    ensures
        match r {
            Ok(parsed) => arguments_of(texts(arguments@)) == Ok::<
                ArgumentsModel,
                BenchmarkErrorModel,
            >(parsed@),
            Err(error) => arguments_of(texts(arguments@)) == Err::<
                ArgumentsModel,
                BenchmarkErrorModel,
            >(error@),
        },
{
    let ghost all = texts(arguments@);
    let mut parsed = Arguments {
        records: 1_000_000,
        seed: 20_260_814,
        database: ".lab/start-005-graph.sqlite3".to_owned(),
        output_directory: "reports/benchmarks/start-005".to_owned(),
    };
    let mut i: usize = 0;
    while i < arguments.len()
        invariant
            i <= arguments@.len(),
            all == texts(arguments@),
            with_options(parsed@, all, i as int) == with_options(default_arguments(), all, 0),
        decreases arguments@.len() - i,
    {
        if arguments.len() - i < 2 {
            return Err(fails("every benchmark option requires a value"));
        }
        assert(all[i as int] == arguments@[i as int]@);
        assert(all[i + 1] == arguments@[i + 1]@);
        match apply_option(parsed, arguments[i].as_str(), arguments[i + 1].as_str()) {
            Ok(next) => parsed = next,
            Err(error) => return Err(error),
        }
        i = i + 2;
    }
    if parsed.records == 0 {
        return Err(fails("--records must be greater than zero"));
    }
    Ok(parsed)
}

/// The volume of the benchmark.
pub fn benchmark_volume() -> (r: VolumeId)
    ensures
        r == (VolumeId { value: 5 }),
{
    VolumeId { value: 5 }
}

/// The object with a number.
pub open spec fn object_key_of(volume_id: VolumeId, identity: u128) -> FileKey {
    FileKey { volume_id, file_id: FileId128 { value: identity } }
}

fn object_key(volume_id: VolumeId, identity: u128) -> (r: FileKey)
    ensures
        r == object_key_of(volume_id, identity),
{
    FileKey { volume_id, file_id: FileId128 { value: identity } }
}

/// Describes the volume.
pub fn volume_descriptor(volume_id: VolumeId) -> (r: VolumeDescriptor)
    ensures
        r@ == (DescriptorModel {
            volume_id,
            display_name: Some("START-005 synthetic volume"@),
            mount_points: seq!["synthetic-root"@],
            filesystem: Some("synthetic"@),
            removable: false,
            local: true,
        }),
{
    let mut mount_points: Vec<String> = Vec::new();
    mount_points.push("synthetic-root".to_owned());
    assert(texts(mount_points@) =~= seq!["synthetic-root"@]);
    VolumeDescriptor {
        volume_id,
        display_name: Some("START-005 synthetic volume".to_owned()),
        mount_points,
        filesystem: Some("synthetic".to_owned()),
        removable: false,
        local: true,
    }
}

/// The checkpoint with a number.
pub open spec fn checkpoint_of(volume_id: VolumeId, sequence: u64) -> CheckpointModel {
    CheckpointModel {
        provider_id: "start-005-benchmark"@,
        format_version: 1,
        volume_id,
        opaque: big_endian(sequence as u128, 8),
    }
}

/// The checkpoint with a number.
pub fn checkpoint(volume_id: VolumeId, sequence: u64) -> (r: ProviderCheckpoint)
    ensures
        r@ == checkpoint_of(volume_id, sequence),
{
    let mut opaque: Vec<u8> = Vec::new();
    push_big_endian(&mut opaque, sequence as u128, 8);
    assert(opaque@ =~= big_endian(sequence as u128, 8));
    ProviderCheckpoint {
        provider_id: "start-005-benchmark".to_owned(),
        format_version: 1,
        volume_id,
        opaque,
    }
}

/// An object of the benchmark.
pub open spec fn object_of(
    object_key: FileKey,
    kind: FileKind,
    size: u64,
    modified_at_unix_ms: i64,
) -> FileObjectSnapshot {
    FileObjectSnapshot {
        object_key,
        metadata: FileMetadata {
            kind,
            size,
            created_at_unix_ms: None,
            modified_at_unix_ms: Some(modified_at_unix_ms),
            hidden: false,
            availability: Availability::Online,
        },
    }
}

/// An object of the benchmark.
pub fn object_snapshot(object_key: FileKey, kind: FileKind, size: u64, modified_at_unix_ms: i64) -> (r:
    FileObjectSnapshot)
    ensures
        r == object_of(object_key, kind, size, modified_at_unix_ms),
{
    FileObjectSnapshot {
        object_key,
        metadata: FileMetadata {
            kind,
            size,
            created_at_unix_ms: None,
            modified_at_unix_ms: Some(modified_at_unix_ms),
            hidden: false,
            availability: Availability::Online,
        },
    }
}

/// The mutation that names an object below the root.
pub open spec fn naming(volume_id: VolumeId, identity: u128, name: Seq<char>) -> MutationModel {
    MutationModel::UpsertLink {
        link: LinkSnapshotModel {
            file_link_id: FileLinkId { value: identity },
            object_key: object_key_of(volume_id, identity),
            parent_key: Some(object_key_of(volume_id, 1)),
            name,
        },
        traversal_boundary: false,
    }
}

fn name_object(volume_id: VolumeId, identity: u128, name: String) -> (r: GraphMutation)
    ensures
        r@ == naming(volume_id, identity, name@),
{
    GraphMutation::UpsertLink {
        link: FileLinkSnapshot {
            file_link_id: FileLinkId { value: identity },
            object_key: object_key(volume_id, identity),
            parent_key: Some(object_key(volume_id, 1)),
            name,
        },
        traversal_boundary: false,
    }
}

/// The root of the volume.
pub open spec fn root_mutations(volume_id: VolumeId) -> Seq<MutationModel> {
    seq![
        MutationModel::UpsertObject {
            object: object_of(object_key_of(volume_id, 1), FileKind::Directory, 0, 0),
        },
        MutationModel::UpsertLink {
            link: LinkSnapshotModel {
                file_link_id: FileLinkId { value: 1 },
                object_key: object_key_of(volume_id, 1),
                parent_key: None,
                name: "catalog"@,
            },
            traversal_boundary: false,
        },
    ]
}

/// The events that tell of the root of the volume.
pub fn root_events(volume_id: VolumeId) -> (r: Vec<FilesystemEvent>)
    ensures
        mutations_of(r@) == root_mutations(volume_id),
{
    let root = object_key(volume_id, 1);
    let mut events: Vec<FilesystemEvent> = Vec::new();
    events.push(
        FilesystemEvent::ObjectObserved { object: object_snapshot(root, FileKind::Directory, 0, 0) },
    );
    events.push(
        FilesystemEvent::LinkObserved {
            link: FileLinkSnapshot {
                file_link_id: FileLinkId { value: 1 },
                object_key: root,
                parent_key: None,
                name: "catalog".to_owned(),
            },
        },
    );
    assert(mutations_of(events@) =~= root_mutations(volume_id));
    events
}

/// A generated record.
#[derive(Clone, Debug, PartialEq, Eq)]
pub struct GeneratedRecord {
    /// Name.
    pub name: String,
    /// Size in bytes.
    pub size: u64,
    /// Time of the last change.
    pub modified_at_unix_ms: i64,
}

/// Where the batch ends that starts at a record.
pub fn batch_end(start: u64, records: u64) -> (r: u64)
    requires
        start < records,
    ensures
        r == (if start + BATCH_RECORDS < records {
            start + BATCH_RECORDS
        } else {
            records as int
        }),
        start < r <= records,
{
    let next: u64 = start.saturating_add(BATCH_RECORDS);
    if next < records {
        next
    } else {
        records
    }
}

/// The mutation at a place of the batch for some records: each has an object and a link.
pub open spec fn dataset_mutation(
    volume_id: VolumeId,
    first: u64,
    records: Seq<GeneratedRecord>,
    at: int,
) -> MutationModel {
    let k = at / 2;
    let record = records[k];
    let identity = (first + k + 2) as u128;
    if at % 2 == 0 {
        MutationModel::UpsertObject {
            object: object_of(
                object_key_of(volume_id, identity),
                FileKind::File,
                record.size,
                record.modified_at_unix_ms,
            ),
        }
    } else {
        naming(volume_id, identity, padded((first + k) as nat, 8) + "-"@ + record.name@)
    }
}

/// The batch for some records.
pub fn dataset_batch(volume_id: VolumeId, first: u64, records: Vec<GeneratedRecord>) -> (r:
    GraphMutationBatch)
    requires
        first + records@.len() <= u64::MAX,
    ensures
        r@ == (BatchModel {
            volume_id,
            checkpoint: checkpoint_of(volume_id, (first + records@.len()) as u64),
            mutations: Seq::new(
                2 * records@.len(),
                |at: int| dataset_mutation(volume_id, first, records@, at),
            ),
        }),
{
    let ghost expected = Seq::new(
        2 * records@.len(),
        |at: int| dataset_mutation(volume_id, first, records@, at),
    );
    let mut mutations: Vec<GraphMutation> = Vec::new();
    let mut i: usize = 0;
    while i < records.len()
        invariant
            i <= records@.len(),
            first + records@.len() <= u64::MAX,
            mutations@.len() == 2 * i,
            expected == Seq::new(
                2 * records@.len(),
                |at: int| dataset_mutation(volume_id, first, records@, at),
            ),
            forall|at: int| 0 <= at < 2 * i ==> (#[trigger] mutations@[at])@ == expected[at],
        decreases records@.len() - i,
    {
        let ordinal: u64 = first + i as u64;
        let identity: u128 = ordinal as u128 + 2;
        let record = &records[i];
        mutations.push(
            GraphMutation::UpsertObject {
                object: object_snapshot(
                    object_key(volume_id, identity),
                    FileKind::File,
                    record.size,
                    record.modified_at_unix_ms,
                ),
            },
        );
        let name = in_a_row(write_padded(ordinal, 8).as_str(), "-", record.name.as_str());
        mutations.push(name_object(volume_id, identity, name));
        proof {
            assert((2 * i as int) / 2 == i as int && (2 * i as int) % 2 == 0);
            assert((2 * i as int + 1) / 2 == i as int && (2 * i as int + 1) % 2 == 1);
            assert(mutations@[2 * i as int]@ == expected[2 * i as int]);
            assert(mutations@[2 * i as int + 1]@ == expected[2 * i as int + 1]);
        }
        i = i + 1;
    }
    let batch = GraphMutationBatch {
        volume_id,
        checkpoint: checkpoint(volume_id, first + records.len() as u64),
        mutations,
    };
    assert(batch@.mutations =~= expected);
    batch
}

/// Checks that the graph holds every record and the root.
pub fn check_counts(stats: &GraphStats, records: u64) -> (r: Result<(), BenchmarkError>)
    ensures
        match r {
            Ok(()) => stats.live_objects == records + 1 && stats.links == records + 1,
            Err(error) => !(stats.live_objects == records + 1 && stats.links == records + 1)
                && says(error, "graph counts do not match the generated dataset"@),
        },
{
    if records < u64::MAX && stats.live_objects == records + 1 && stats.links == records + 1 {
        Ok(())
    } else {
        Err(fails("graph counts do not match the generated dataset"))
    }
}

/// The object that is changed: that of the last record.
pub fn target_link(records: u64) -> (r: FileLinkId)
    ensures
        r == (FileLinkId { value: (records + 1) as u128 }),
{
    FileLinkId { value: records as u128 + 1 }
}

/// A batch of one mutation.
pub open spec fn single(volume_id: VolumeId, sequence: u64, mutation: MutationModel) -> BatchModel {
    BatchModel {
        volume_id,
        checkpoint: checkpoint_of(volume_id, sequence),
        mutations: seq![mutation],
    }
}

fn one_mutation(volume_id: VolumeId, sequence: u64, mutation: GraphMutation) -> (r:
    GraphMutationBatch)
    ensures
        r@ == single(volume_id, sequence, mutation@),
{
    let mut mutations: Vec<GraphMutation> = Vec::new();
    mutations.push(mutation);
    let batch = GraphMutationBatch {
        volume_id,
        checkpoint: checkpoint(volume_id, sequence),
        mutations,
    };
    assert(batch@.mutations =~= seq![mutation@]);
    batch
}

/// The batch that changes the last record.
pub fn change_batch(volume_id: VolumeId, records: u64, last: &GeneratedRecord, sample: u64) -> (r:
    GraphMutationBatch)
    requires
        records <= MAXIMUM_RECORDS,
        sample < LATENCY_SAMPLES,
        last.size + sample <= u64::MAX,
    ensures
        r@ == single(
            volume_id,
            (records + sample + 1) as u64,
            MutationModel::UpsertObject {
                object: object_of(
                    object_key_of(volume_id, (records + 1) as u128),
                    FileKind::File,
                    (last.size + sample) as u64,
                    last.modified_at_unix_ms,
                ),
            },
        ),
{
    one_mutation(
        volume_id,
        records + sample + 1,
        GraphMutation::UpsertObject {
            object: object_snapshot(
                object_key(volume_id, records as u128 + 1),
                FileKind::File,
                last.size + sample,
                last.modified_at_unix_ms,
            ),
        },
    )
}

/// The batch that renames the last record.
pub fn rename_batch(volume_id: VolumeId, records: u64, sample: u64) -> (r: GraphMutationBatch)
    requires
        records <= MAXIMUM_RECORDS,
        sample < LATENCY_SAMPLES,
    ensures
        r@ == single(
            volume_id,
            (records + LATENCY_SAMPLES + sample + 1) as u64,
            naming(
                volume_id,
                (records + 1) as u128,
                "renamed-"@ + padded(sample as nat, 3) + ".txt"@,
            ),
        ),
{
    let name = in_a_row("renamed-", write_padded(sample, 3).as_str(), ".txt");
    one_mutation(
        volume_id,
        records + LATENCY_SAMPLES + sample + 1,
        name_object(volume_id, records as u128 + 1, name),
    )
}

/// The batch that makes a directory.
pub fn directory_batch(volume_id: VolumeId, records: u64) -> (r: GraphMutationBatch)
    requires
        records <= MAXIMUM_RECORDS,
    ensures
        r@ == (BatchModel {
            volume_id,
            checkpoint: checkpoint_of(volume_id, (records + 10_000) as u64),
            mutations: seq![
                MutationModel::UpsertObject {
                    object: object_of(
                        object_key_of(volume_id, (records + 2) as u128),
                        FileKind::Directory,
                        0,
                        0,
                    ),
                },
                naming(volume_id, (records + 2) as u128, "directory-before"@),
            ],
        }),
{
    let identity: u128 = records as u128 + 2;
    let mut mutations: Vec<GraphMutation> = Vec::new();
    mutations.push(
        GraphMutation::UpsertObject {
            object: object_snapshot(
                object_key(volume_id, identity),
                FileKind::Directory,
                0,
                0,
            ),
        },
    );
    mutations.push(name_object(volume_id, identity, "directory-before".to_owned()));
    let batch = GraphMutationBatch {
        volume_id,
        checkpoint: checkpoint(volume_id, records + 10_000),
        mutations,
    };
    assert(batch@.mutations =~= seq![mutations@[0]@, mutations@[1]@]);
    batch
}

/// The batch that renames the directory.
pub fn directory_rename_batch(volume_id: VolumeId, records: u64, sample: u64) -> (r:
    GraphMutationBatch)
    requires
        records <= MAXIMUM_RECORDS,
        sample < LATENCY_SAMPLES,
    ensures
        r@ == single(
            volume_id,
            (records + 10_001 + sample) as u64,
            naming(volume_id, (records + 2) as u128, "directory-"@ + padded(sample as nat, 3)),
        ),
{
    let mut name = "directory-".to_owned();
    name.append(write_padded(sample, 3).as_str());
    one_mutation(
        volume_id,
        records + 10_001 + sample,
        name_object(volume_id, records as u128 + 2, name),
    )
}

/// Checks that renaming a directory left one job to do, which was found and completed.
pub fn check_refresh(summary: &ApplySummary, job_found: bool, job_completed: bool) -> (r: Result<
    (),
    BenchmarkError,
>)
    ensures
        match r {
            Ok(()) => summary.refresh_jobs_enqueued == 1 && job_found && job_completed,
            Err(error) => if summary.refresh_jobs_enqueued != 1 {
                says(error, "directory rename did not enqueue exactly one bounded refresh"@)
            } else if !job_found {
                says(error, "directory rename refresh job is missing"@)
            } else {
                !job_completed && says(
                    error,
                    "directory rename refresh job could not be completed"@,
                )
            },
        },
{
    if summary.refresh_jobs_enqueued != 1 {
        return Err(fails("directory rename did not enqueue exactly one bounded refresh"));
    }
    if !job_found {
        return Err(fails("directory rename refresh job is missing"));
    }
    if !job_completed {
        return Err(fails("directory rename refresh job could not be completed"));
    }
    Ok(())
}

/// Checks that a path has two names: that of the root and that of the record.
pub fn check_depth(components: usize) -> (r: Result<(), BenchmarkError>)
    ensures
        match r {
            Ok(()) => components == 2,
            Err(error) => components != 2 && says(error, "resolved path has an unexpected depth"@),
        },
{
    if components != 2 {
        return Err(fails("resolved path has an unexpected depth"));
    }
    Ok(())
}

/// The percentile of samples.
pub fn percentile_ms(samples: &Vec<Ratio>, percentile: usize) -> (r: Ratio)
    requires
        samples@.len() > 0,
        percentile <= 100,
    ensures
        r == percentile_value_of(ascending(samples@), percentile as nat),
{
    let sorted = sort_ascending(samples);
    percentile_value(&sorted, percentile)
}

/// What was timed.
#[derive(Debug)]
pub struct Timings {
    /// Nanoseconds until every record was applied.
    pub ingest_ns: u64,
    /// Bytes of the database.
    pub database_bytes: u64,
    /// Changing a record.
    pub single_apply: Vec<Ratio>,
    /// Renaming a record.
    pub rename_apply: Vec<Ratio>,
    /// Renaming a directory.
    pub directory_rename: Vec<Ratio>,
    /// Resolving a path on an open graph.
    pub warm_resolve: Vec<Ratio>,
    /// Resolving a path on a graph that was just opened.
    pub cold_resolve: Vec<Ratio>,
}

impl Timings {
    /// Everything was timed at least once.
    pub open spec fn complete(self) -> bool {
        &&& self.single_apply@.len() > 0
        &&& self.rename_apply@.len() > 0
        &&& self.directory_rename@.len() > 0
        &&& self.warm_resolve@.len() > 0
        &&& self.cold_resolve@.len() > 0
    }
}

/// A named value of the report.
#[derive(Clone, Copy, Debug, PartialEq, Eq)]
pub struct GraphMeasurement {
    /// Name.
    pub name: &'static str,
    /// Unit.
    pub unit: &'static str,
    /// Value.
    pub value: Quantity,
}

/// A named value as a mathematical value.
pub struct GraphMeasurementModel {
    pub name: Seq<char>,
    pub unit: Seq<char>,
    pub value: Quantity,
}

impl View for GraphMeasurement {
    type V = GraphMeasurementModel;

    open spec fn view(&self) -> GraphMeasurementModel {
        GraphMeasurementModel { name: self.name@, unit: self.unit@, value: self.value }
    }
}

/// A number with a name and a unit.
pub open spec fn valued(name: Seq<char>, unit: Seq<char>, value: Ratio) -> GraphMeasurementModel {
    GraphMeasurementModel { name, unit, value: Quantity::Number(value) }
}

/// A percentile with a name.
pub open spec fn timed(name: Seq<char>, samples: Seq<Ratio>, percentile: nat) ->
    GraphMeasurementModel {
    valued(name, "milliseconds"@, percentile_value_of(ascending(samples), percentile))
}

/// The report of a run.
pub open spec fn measured(t: Timings, records: u64) -> Seq<GraphMeasurementModel> {
    seq![
        valued(
            "initial_ingest"@,
            "seconds"@,
            Ratio { numerator: t.ingest_ns, denominator: 1_000_000_000 },
        ),
        GraphMeasurementModel {
            name: "initial_ingest"@,
            unit: "objects_per_second"@,
            value: Quantity::Throughput { documents: records, wall_ns: t.ingest_ns },
        },
        valued("database_size"@, "bytes"@, whole(t.database_bytes)),
        valued(
            "database_size"@,
            "bytes_per_record"@,
            Ratio { numerator: t.database_bytes, denominator: records },
        ),
        timed("single_event_apply_p50"@, t.single_apply@, 50),
        timed("single_event_apply_p95"@, t.single_apply@, 95),
        timed("single_event_apply_p99"@, t.single_apply@, 99),
        timed("rename_move_apply_p95"@, t.rename_apply@, 95),
        timed("directory_rename_enqueue_p95"@, t.directory_rename@, 95),
        timed("path_resolve_warm_p95"@, t.warm_resolve@, 95),
        timed("path_resolve_warm_p99"@, t.warm_resolve@, 99),
        timed("path_resolve_cold_p95"@, t.cold_resolve@, 95),
        timed("path_resolve_cold_p99"@, t.cold_resolve@, 99),
    ]
}

fn number(name: &'static str, unit: &'static str, value: Ratio) -> (r: GraphMeasurement)
    ensures
        r@ == valued(name@, unit@, value),
{
    GraphMeasurement { name, unit, value: Quantity::Number(value) }
}

fn percentile(name: &'static str, samples: &Vec<Ratio>, percent: usize) -> (r: GraphMeasurement)
    requires
        samples@.len() > 0,
        percent <= 100,
    ensures
        r@ == timed(name@, samples@, percent as nat),
{
    number(name, "milliseconds", percentile_ms(samples, percent))
}

/// The views of several named values.
pub open spec fn graph_measurement_models(values: Seq<GraphMeasurement>) -> Seq<
    GraphMeasurementModel,
> {
    Seq::new(values.len(), |i: int| values[i]@)
}

/// The report of a run.
pub fn measurements(timings: &Timings, records: u64) -> (r: Vec<GraphMeasurement>)
    requires
        timings.complete(),
        records > 0,
    ensures
        graph_measurement_models(r@) == measured(*timings, records),
{
    let mut values: Vec<GraphMeasurement> = Vec::new();
    values.push(
        number(
            "initial_ingest",
            "seconds",
            Ratio { numerator: timings.ingest_ns, denominator: 1_000_000_000 },
        ),
    );
    values.push(
        GraphMeasurement {
            name: "initial_ingest",
            unit: "objects_per_second",
            value: Quantity::Throughput { documents: records, wall_ns: timings.ingest_ns },
        },
    );
    values.push(number("database_size", "bytes", Ratio::of_count(timings.database_bytes)));
    values.push(
        number(
            "database_size",
            "bytes_per_record",
            Ratio { numerator: timings.database_bytes, denominator: records },
        ),
    );
    values.push(percentile("single_event_apply_p50", &timings.single_apply, 50));
    values.push(percentile("single_event_apply_p95", &timings.single_apply, 95));
    values.push(percentile("single_event_apply_p99", &timings.single_apply, 99));
    values.push(percentile("rename_move_apply_p95", &timings.rename_apply, 95));
    values.push(percentile("directory_rename_enqueue_p95", &timings.directory_rename, 95));
    values.push(percentile("path_resolve_warm_p95", &timings.warm_resolve, 95));
    values.push(percentile("path_resolve_warm_p99", &timings.warm_resolve, 99));
    values.push(percentile("path_resolve_cold_p95", &timings.cold_resolve, 95));
    values.push(percentile("path_resolve_cold_p99", &timings.cold_resolve, 99));
    assert(graph_measurement_models(values@) =~= measured(*timings, records));
    values
}

/// The name of a run.
pub fn run_id(records: u64, unix_seconds: u64) -> (r: String)
    ensures
        r@ == "start-005-"@ + decimal(records as nat) + "-"@ + decimal(unix_seconds as nat),
{
    let mut name = in_a_row("start-005-", write_decimal(records).as_str(), "-");
    name.append(write_decimal(unix_seconds).as_str());
    name
}

/// How the names of the reports start.
pub fn report_stem(records: u64) -> (r: String)
    ensures
        r@ == "start-005-"@ + decimal(records as nat) + "-records"@,
{
    in_a_row("start-005-", write_decimal(records).as_str(), "-records")
}

} // verus!
