//! What the fixture does to a graph, and what it expects of it.

use vstd::prelude::*;

use crate::catalog::{Availability, FilesystemEvent, ProviderCheckpoint};
use crate::fixture::{
    check_current_document, churn_name, churn_text, fails, is_current, is_within, path_is_within,
    projection_backlog, recorded, says, step_after, summed, ChurnMetrics, ChurnOptions, FixtureDocument,
    FixtureError, FixtureErrorModel, FixtureOperation, PumpOutcome, PumpProgress, PumpStep,
    MAX_CHANGE_PASSES,
};
use crate::graph::domain::{
    mutations_of, ApplySummary, BatchModel, GraphMutation, GraphMutationBatch, MutationModel,
    VolumeState,
};
use crate::graph::error::{ErrorModel, GraphError};
use crate::graph::model::{apply_batch, GraphModel, ProjectionOutboxMode};
use crate::graph::store::FilesystemGraph;
use crate::graph::upkeep_model::{desired_document, documents_after};
use crate::ids::{DocumentId, VolumeId};
use crate::order::listing;
use crate::table::key_rank;
use crate::text::texts;

verus! {

/// Why a step of the fixture failed.
#[derive(Debug)]
pub enum SessionError {
    /// The graph refused it.
    Graph(GraphError),
    /// The fixture refused it.
    Fixture(FixtureError),
}

/// Why a step failed, as a mathematical value.
pub enum SessionErrorModel {
    /// The graph refused it.
    Graph(ErrorModel),
    /// The fixture refused it.
    Fixture(FixtureErrorModel),
}

impl View for SessionError {
    type V = SessionErrorModel;

    open spec fn view(&self) -> SessionErrorModel {
        match *self {
            SessionError::Graph(error) => SessionErrorModel::Graph(error@),
            SessionError::Fixture(error) => SessionErrorModel::Fixture(error@),
        }
    }
}

/// The batch that says that a volume is gone.
pub open spec fn detaching(m: GraphModel, volume_id: VolumeId) -> BatchModel {
    BatchModel {
        volume_id,
        checkpoint: m.checkpoints[volume_id],
        mutations: seq![
            MutationModel::SetVolumeState { volume_id, state: VolumeState::Offline },
        ],
    }
}

/// Notes in a graph that a volume is gone.
pub fn detach(graph: &mut FilesystemGraph, volume_id: VolumeId) -> (r: Result<
    ApplySummary,
    SessionError,
>)
    requires
        old(graph).wf(),
    ensures
        final(graph).wf(),
        !old(graph)@.checkpoints.dom().contains(volume_id) ==> {
            &&& final(graph)@ == old(graph)@
            &&& r matches Err(error)
            &&& error@ == SessionErrorModel::Fixture(
                FixtureErrorModel::Message("fixture graph has no provider checkpoint"@),
            )
        },
        old(graph)@.checkpoints.dom().contains(volume_id) ==> match apply_batch(
            old(graph)@,
            detaching(old(graph)@, volume_id),
            ProjectionOutboxMode::Durable,
        ) {
            Ok((m, summary)) => r == Ok::<ApplySummary, SessionError>(summary) && final(graph)@
                == m,
            Err(e) => {
                &&& final(graph)@ == old(graph)@
                &&& r matches Err(error)
                &&& error@ == SessionErrorModel::Graph(e)
            },
        },
{
    let checkpoint = match graph.checkpoint(volume_id) {
        Ok(Some(checkpoint)) => checkpoint,
        Ok(None) => return Err(
            SessionError::Fixture(fails("fixture graph has no provider checkpoint")),
        ),
        Err(error) => return Err(SessionError::Graph(error)),
    };
    let mut mutations: Vec<GraphMutation> = Vec::new();
    mutations.push(GraphMutation::SetVolumeState { volume_id, state: VolumeState::Offline });
    let batch = GraphMutationBatch { volume_id, checkpoint, mutations };
    assert(batch@.mutations =~= detaching(graph@, volume_id).mutations);
    match graph.apply_batch(&batch) {
        Ok(summary) => Ok(summary),
        Err(error) => Err(SessionError::Graph(error)),
    }
}

/// Checks that a document is there with an availability.
fn check_availability(
    graph: &FilesystemGraph,
    document_id: DocumentId,
    expected: Availability,
    lost: &str,
    wrong: &str,
) -> (r: Result<(), FixtureError>)
    requires
        graph.wf(),
    ensures
        match r {
            Ok(()) => graph@.documents.dom().contains(document_id) && desired_document(
                graph@,
                document_id,
            ).metadata.availability == expected,
            Err(error) => if !graph@.documents.dom().contains(document_id) {
                says(error, lost@)
            } else {
                desired_document(graph@, document_id).metadata.availability != expected && says(
                    error,
                    wrong@,
                )
            },
        },
{
    match graph.desired_catalog_document(document_id) {
        Ok(Some(document)) => {
            if document.metadata.availability == expected {
                Ok(())
            } else {
                Err(fails(wrong))
            }
        },
        _ => Err(fails(lost)),
    }
}

/// Checks that a document is kept while its volume is gone.
pub fn check_offline(graph: &FilesystemGraph, document_id: DocumentId) -> (r: Result<
    (),
    FixtureError,
>)
    requires
        graph.wf(),
    ensures
        match r {
            Ok(()) => graph@.documents.dom().contains(document_id) && desired_document(
                graph@,
                document_id,
            ).metadata.availability == Availability::Offline,
            Err(error) => if !graph@.documents.dom().contains(document_id) {
                says(error, "offline transition lost the fixture document"@)
            } else {
                &&& desired_document(graph@, document_id).metadata.availability
                    != Availability::Offline
                &&& says(error, "offline volume did not project offline catalog availability"@)
            },
        },
{
    check_availability(
        graph,
        document_id,
        Availability::Offline,
        "offline transition lost the fixture document",
        "offline volume did not project offline catalog availability",
    )
}

/// Checks that a document is there again once its volume is back.
pub fn check_online(graph: &FilesystemGraph, document_id: DocumentId) -> (r: Result<
    (),
    FixtureError,
>)
    requires
        graph.wf(),
    ensures
        match r {
            Ok(()) => graph@.documents.dom().contains(document_id) && desired_document(
                graph@,
                document_id,
            ).metadata.availability == Availability::Online,
            Err(error) => if !graph@.documents.dom().contains(document_id) {
                says(error, "online reconciliation lost stable fixture identity"@)
            } else {
                &&& desired_document(graph@, document_id).metadata.availability
                    != Availability::Online
                &&& says(error, "reattached volume did not project online catalog availability"@)
            },
        },
{
    check_availability(
        graph,
        document_id,
        Availability::Online,
        "online reconciliation lost stable fixture identity",
        "reattached volume did not project online catalog availability",
    )
}

/// The document with an identity, if there is one.
pub open spec fn document_in(m: GraphModel, document_id: DocumentId) -> Option<
    crate::catalog::DocumentModel,
> {
    if m.documents.dom().contains(document_id) {
        Some(desired_document(m, document_id))
    } else {
        None
    }
}

/// A document that was renamed or moved, as the graph has it now.
pub fn current_document(graph: &FilesystemGraph, stale: &FixtureDocument, expected_path: &str) -> (r:
    Result<FixtureDocument, FixtureError>)
    requires
        graph.wf(),
    ensures
        is_current(r, document_in(graph@, stale.document_id), *stale, expected_path@),
{
    let found = match graph.desired_catalog_document(stale.document_id) {
        Ok(document) => document,
        Err(_) => None,
    };
    check_current_document(found, stale, expected_path)
}

/// Checks what became of a document after a file was renamed, moved or deleted.
pub fn check_mutation(
    operation: FixtureOperation,
    graph: &FilesystemGraph,
    document: &FixtureDocument,
    target: &str,
) -> (r: Result<Option<FixtureDocument>, FixtureError>)
    requires
        graph.wf(),
    ensures
        match operation {
            FixtureOperation::Rename | FixtureOperation::Move => match r {
                Ok(Some(current)) => is_current(
                    Ok(current),
                    document_in(graph@, document.document_id),
                    *document,
                    target@,
                ),
                Ok(None) => false,
                Err(error) => is_current(
                    Err(error),
                    document_in(graph@, document.document_id),
                    *document,
                    target@,
                ),
            },
            FixtureOperation::Delete => match r {
                Ok(current) => current is None && document_in(
                    graph@,
                    document.document_id,
                ) is None,
                Err(error) => document_in(graph@, document.document_id) is Some && says(
                    error,
                    "deleted document remains in desired catalog state"@,
                ),
            },
            _ => r matches Err(error) && says(error, "unsupported mutation"@),
        },
{
    match operation {
        FixtureOperation::Rename | FixtureOperation::Move => match current_document(
            graph,
            document,
            target,
        ) {
            Ok(current) => Ok(Some(current)),
            Err(error) => Err(error),
        },
        FixtureOperation::Delete => match graph.desired_catalog_document(document.document_id) {
            Ok(Some(_)) => Err(fails("deleted document remains in desired catalog state")),
            _ => Ok(None),
        },
        _ => Err(fails("unsupported mutation")),
    }
}

/// No document is left below a root.
pub open spec fn is_clean(m: GraphModel, root: Seq<char>) -> bool {
    forall|id: DocumentId| #[trigger]
        m.documents.dom().contains(id) ==> !is_within(root, desired_document(m, id).resolved_path)
}

/// Checks that nothing is left of a fixture, neither in the graph nor on the volume.
pub fn check_cleanup(graph: &FilesystemGraph, root: &str, root_exists: bool) -> (r: Result<
    (),
    FixtureError,
>)
    requires
        graph.wf(),
    ensures
        match r {
            Ok(()) => is_clean(graph@, root@) && !root_exists,
            Err(error) => !(is_clean(graph@, root@) && !root_exists) && says(
                error,
                "fixture cleanup did not converge"@,
            ),
        },
{
    let documents = match graph.desired_catalog_documents() {
        Ok(documents) => documents,
        Err(_) => Vec::new(),
    };
    let ghost m = graph@;
    let ghost eligible = documents_after(m, None);
    let ghost ids = listing(eligible, key_rank::<DocumentId>());
    let mut i: usize = 0;
    while i < documents.len()
        invariant
            i <= documents@.len(),
            documents@.len() == ids.len(),
            m == graph@,
            eligible == documents_after(m, None),
            forall|k: int| 0 <= k < ids.len() ==> eligible(#[trigger] ids[k]),
            forall|k: int|
                0 <= k < ids.len() ==> (#[trigger] documents@[k])@ == desired_document(m, ids[k]),
            forall|k: int|
                0 <= k < i ==> !is_within(root@, (#[trigger] documents@[k])@.resolved_path),
        decreases documents@.len() - i,
    {
        if path_is_within(root, documents[i].resolved_path.as_str()) {
            proof {
                let id = ids[i as int];
                assert(eligible(id));
                assert(m.documents.dom().contains(id));
                assert(documents@[i as int]@ == desired_document(m, id));
            }
            return Err(fails("fixture cleanup did not converge"));
        }
        i = i + 1;
    }
    proof {
        assert forall|id: DocumentId| #[trigger] m.documents.dom().contains(id) implies !is_within(
            root@,
            desired_document(m, id).resolved_path,
        ) by {
            assert(eligible(id));
            let k = ids.index_of(id);
            assert(ids[k] == id);
            assert(documents@[k]@ == desired_document(m, ids[k]));
        }
    }
    if root_exists {
        return Err(fails("fixture cleanup did not converge"));
    }
    Ok(())
}

/// Reading the changes of a volume into a graph.
#[derive(Debug)]
pub struct Pump {
    /// The volume.
    pub volume_id: VolumeId,
    /// How far it is.
    pub progress: PumpProgress,
}

impl Pump {
    /// Starts where the graph is, which has to be known.
    pub fn begin(graph: &FilesystemGraph, volume_id: VolumeId, minimum_events: u64) -> (r: Result<
        (Pump, ProviderCheckpoint),
        FixtureError,
    >)
        requires
            graph.wf(),
        ensures
            match r {
                Ok((pump, checkpoint)) => {
                    &&& graph@.checkpoints.dom().contains(volume_id)
                    &&& checkpoint@ == graph@.checkpoints[volume_id]
                    &&& pump == (Pump {
                        volume_id,
                        progress: PumpProgress { emitted: 0, passes: 0, minimum_events },
                    })
                },
                Err(error) => !graph@.checkpoints.dom().contains(volume_id) && says(
                    error,
                    "fixture graph has no provider checkpoint"@,
                ),
            },
    {
        match graph.checkpoint(volume_id) {
            Ok(Some(checkpoint)) => Ok(
                (Pump { volume_id, progress: PumpProgress::begin(minimum_events) }, checkpoint),
            ),
            _ => Err(fails("fixture graph has no provider checkpoint")),
        }
    }

    /// Takes the changes that were read into the graph, and says what to do next.
    pub fn take_changes(
        &mut self,
        graph: &mut FilesystemGraph,
        checkpoint: ProviderCheckpoint,
        events: Vec<FilesystemEvent>,
        emitted_events: u32,
        has_more: bool,
        elapsed_ns: u128,
    ) -> (r: Result<PumpStep, GraphError>)
        requires
            old(graph).wf(),
            old(self).progress.passes < MAX_CHANGE_PASSES,
        ensures
            final(graph).wf(),
            final(self).volume_id == old(self).volume_id,
            final(self).progress.emitted == summed(
                old(self).progress.emitted,
                emitted_events as u64,
            ),
            final(self).progress.passes == old(self).progress.passes + 1,
            final(self).progress.minimum_events == old(self).progress.minimum_events,
            match apply_batch(
                old(graph)@,
                BatchModel {
                    volume_id: old(self).volume_id,
                    checkpoint: checkpoint@,
                    mutations: mutations_of(events@),
                },
                ProjectionOutboxMode::Durable,
            ) {
                Err(e) => {
                    &&& final(graph)@ == old(graph)@
                    &&& r matches Err(error)
                    &&& error@ == e
                },
                Ok((m, _)) => {
                    &&& final(graph)@ == m
                    &&& r matches Ok(step)
                    &&& step == step_after(final(self).progress, has_more, elapsed_ns)
                },
            },
    {
        let step = self.progress.record(emitted_events, has_more, elapsed_ns);
        let batch = GraphMutationBatch::from_events(self.volume_id, checkpoint, events);
        match graph.apply_batch(&batch) {
            Ok(_) => Ok(step),
            Err(error) => Err(error),
        }
    }

    /// What came of it, where somebody else runs the projection.
    pub fn without_projection(&self, backlog: u64) -> (r: PumpOutcome)
        ensures
            r == (PumpOutcome {
                emitted_events: self.progress.emitted,
                backlog_before_projection: backlog,
                applied_mutations: 0,
                projection_micros: 0,
                projection_run: false,
            }),
    {
        PumpOutcome {
            emitted_events: self.progress.emitted,
            backlog_before_projection: backlog,
            applied_mutations: 0,
            projection_micros: 0,
            projection_run: false,
        }
    }

    /// What came of it once a projection ran, which may leave nothing behind.
    pub fn with_projection(
        &self,
        backlog: u64,
        applied_mutations: u64,
        backlog_remaining: bool,
        elapsed_micros: u128,
    ) -> (r: Result<PumpOutcome, FixtureError>)
        ensures
            match r {
                Ok(outcome) => !backlog_remaining && outcome == (PumpOutcome {
                    emitted_events: self.progress.emitted,
                    backlog_before_projection: backlog,
                    applied_mutations,
                    projection_micros: if elapsed_micros > u64::MAX {
                        u64::MAX
                    } else {
                        elapsed_micros as u64
                    },
                    projection_run: true,
                }),
                Err(error) => backlog_remaining && says(
                    error,
                    "fixture projection left a durable backlog"@,
                ),
            },
    {
        if backlog_remaining {
            return Err(fails("fixture projection left a durable backlog"));
        }
        let projection_micros: u64 = if elapsed_micros > u64::MAX as u128 {
            u64::MAX
        } else {
            elapsed_micros as u64
        };
        Ok(
            PumpOutcome {
                emitted_events: self.progress.emitted,
                backlog_before_projection: backlog,
                applied_mutations,
                projection_micros,
                projection_run: true,
            },
        )
    }
}

/// How many mutations wait for a consumer.
pub fn waiting_mutations(graph: &FilesystemGraph, consumer_id: &str) -> (r: u64)
    requires
        graph.wf(),
    ensures
        r == crate::fixture::backlog(
            graph@.issued,
            if graph@.consumers.dom().contains(consumer_id@) {
                graph@.consumers[consumer_id@].last_sequence
            } else {
                0
            },
        ),
{
    let latest: u64 = match graph.latest_outbox_sequence() {
        Ok(sequence) => sequence.0,
        Err(_) => 0,
    };
    match graph.projector_checkpoint(consumer_id) {
        Ok(Some(checkpoint)) => projection_backlog(latest, Some(checkpoint.last_sequence)),
        _ => projection_backlog(latest, None),
    }
}

/// Changing files again and again.
#[derive(Debug)]
pub struct Churn {
    /// What it is asked for.
    pub options: ChurnOptions,
    /// The number of the last file.
    pub sequence: u64,
    /// What was done to files and directories.
    pub filesystem_operations: u64,
    /// What came of it.
    pub metrics: ChurnMetrics,
}

/// The names of the next files.
pub open spec fn next_names(sequence: u64, n: nat) -> Seq<Seq<char>> {
    Seq::new(n, |i: int| churn_text(summed(sequence, (i + 1) as u64)))
}

impl Churn {
    /// After two directories were made.
    pub fn begin(options: ChurnOptions) -> (r: Churn)
        ensures
            r.options == options,
            r.sequence == 0,
            r.filesystem_operations == 2,
            r.metrics == (ChurnMetrics {
                provider_events: 0,
                projection_mutations: 0,
                projection_runs: 0,
                maximum_backlog_mutations: 0,
                maximum_projection_micros: 0,
            }),
    {
        Churn {
            options,
            sequence: 0,
            filesystem_operations: 2,
            metrics: ChurnMetrics::default(),
        }
    }

    /// Whether it goes on.
    pub fn goes_on(&self, elapsed_ns: u128) -> (r: bool)
        ensures
            r == (elapsed_ns < self.options.duration_seconds * 1_000_000_000),
    {
        elapsed_ns < self.options.duration_seconds as u128 * 1_000_000_000
    }

    /// The names of the files to write next.
    pub fn next_files(&mut self) -> (r: Vec<String>)
        ensures
            *final(self) == (Churn {
                sequence: summed(old(self).sequence, old(self).options.batch_files),
                ..*old(self)
            }),
            texts(r@) == next_names(old(self).sequence, old(self).options.batch_files as nat),
    {
        let ghost start = self.sequence;
        let mut names: Vec<String> = Vec::new();
        let mut i: u64 = 0;
        while i < self.options.batch_files
            invariant
                i <= self.options.batch_files,
                self.options == old(self).options,
                self.filesystem_operations == old(self).filesystem_operations,
                self.metrics == old(self).metrics,
                self.sequence == summed(start, i),
                names@.len() == i,
                forall|k: int|
                    0 <= k < i ==> (#[trigger] names@[k])@ == churn_text(
                        summed(start, (k + 1) as u64),
                    ),
            decreases self.options.batch_files - i,
        {
            self.sequence = self.sequence.saturating_add(1);
            names.push(churn_name(self.sequence));
            i = i + 1;
        }
        assert(texts(names@) =~= next_names(start, self.options.batch_files as nat));
        names
    }

    /// Notes that every file was written, renamed, moved or removed.
    pub fn files_changed(&mut self)
        ensures
            *final(self) == (Churn {
                filesystem_operations: summed(
                    old(self).filesystem_operations,
                    old(self).options.batch_files,
                ),
                ..*old(self)
            }),
    {
        self.filesystem_operations = self.filesystem_operations.saturating_add(
            self.options.batch_files,
        );
    }

    /// Takes what came of reading the changes.
    pub fn record(&mut self, outcome: PumpOutcome)
        ensures
            *final(self) == (Churn {
                metrics: recorded(old(self).metrics, outcome),
                ..*old(self)
            }),
    {
        self.metrics.record(outcome);
    }

    /// How long to wait at the end of a cycle.
    pub fn rest_of_cycle_ns(&self, cycle_ns: u128) -> (r: Option<u128>)
        ensures
            r == (if cycle_ns <= self.options.cycle_interval_millis * 1_000_000 {
                Some((self.options.cycle_interval_millis * 1_000_000 - cycle_ns) as u128)
            } else {
                None
            }),
    {
        let interval: u128 = self.options.cycle_interval_millis as u128 * 1_000_000;
        if cycle_ns <= interval {
            Some(interval - cycle_ns)
        } else {
            None
        }
    }
}

} // verus!
