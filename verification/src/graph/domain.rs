//! Values that the filesystem graph takes and gives.

use vstd::prelude::*;
use vstd::std_specs::convert::FromSpecImpl;

use crate::catalog::{
    Availability, CheckpointModel, DescriptorModel, FileLinkSnapshot, FileObjectSnapshot,
    FilesystemEvent, LinkSnapshotModel, ProviderCheckpoint, ReconciliationReason,
    VolumeDescriptor,
};
use crate::graph::error::{invalid_batch, ErrorModel, GraphResult};
use crate::ids::{FileKey, FileLinkId, VolumeId};
use crate::text::{join_with, joined, texts};

verus! {

/// Lifecycle state of a discovered volume.
#[derive(Clone, Copy, Debug, PartialEq, Eq, Structural)]
pub enum VolumeState {
    /// The source is accessible and its graph can be updated.
    Online,
    /// The source is known but currently disconnected.
    Offline,
    /// Incremental continuity was lost and a reconciliation is required.
    NeedsReconciliation,
}

/// Full-volume observation mode.
#[derive(Clone, Copy, Debug, PartialEq, Eq, Structural)]
pub enum ObservationScanMode {
    /// Establish the first authoritative snapshot for a selected volume.
    Initial,
    /// Repair a volume after source continuity or integrity was lost.
    Reconcile,
}

/// Phase of one full-volume observation session.
#[derive(Clone, Copy, Debug, PartialEq, Eq, Structural)]
pub enum ObservationScanPhase {
    /// Pages are still being committed to the graph.
    Scanning,
    /// Namespace links absent from the new snapshot are being removed in bounded pages.
    SweepingLinks,
    /// Unlinked objects absent from the new snapshot are being tombstoned in bounded pages.
    SweepingObjects,
}

/// Full-volume observation progress.
#[derive(Clone, Copy, Debug, PartialEq, Eq, Structural)]
pub struct ObservationSession {
    /// Volume being bootstrapped or reconciled.
    pub volume_id: VolumeId,
    /// First graph generation reserved for this scan; older rows are stale candidates.
    pub scan_generation: u64,
    /// Whether this is initial bootstrap or recovery.
    pub mode: ObservationScanMode,
    /// Current scan or finalization phase.
    pub phase: ObservationScanPhase,
}

/// Bounded stale-row sweep result for one observation maintenance transaction.
#[derive(Clone, Copy, Debug, PartialEq, Eq, Structural)]
pub struct ObservationFinalizeSummary {
    /// Namespace links removed by this transaction.
    pub stale_links_removed: u64,
    /// Previously unlinked objects tombstoned by this transaction.
    pub stale_objects_tombstoned: u64,
    /// Whether the final provider checkpoint is now authoritative and the session is closed.
    pub completed: bool,
}

/// A platform-neutral state transition applied to the graph.
#[derive(Clone, Debug, PartialEq, Eq)]
pub enum GraphMutation {
    /// Create or update a volume without interpreting provider-native state.
    UpsertVolume {
        /// Portable volume description.
        descriptor: VolumeDescriptor,
    },
    /// Change the volume lifecycle state.
    SetVolumeState {
        /// Affected volume.
        volume_id: VolumeId,
        /// New lifecycle state.
        state: VolumeState,
    },
    /// Create or replace object metadata.
    UpsertObject {
        /// Latest object state.
        object: FileObjectSnapshot,
    },
    /// Create or replace a namespace link.
    UpsertLink {
        /// Latest link state.
        link: FileLinkSnapshot,
        /// Whether traversal through this link must stop at a provider boundary.
        traversal_boundary: bool,
    },
    /// Remove one namespace link while preserving other hard links.
    RemoveLink {
        /// Link identity.
        file_link_id: FileLinkId,
        /// Expected physical object identity.
        object_key: FileKey,
    },
    /// Tombstone an object after its final link has disappeared.
    TombstoneObject {
        /// Physical object identity.
        object_key: FileKey,
    },
    /// Record that source reconciliation is required.
    RequireReconciliation {
        /// Affected volume.
        volume_id: VolumeId,
        /// Portable recovery category.
        reason: ReconciliationReason,
    },
}

/// A mutation as a mathematical value.
pub enum MutationModel {
    UpsertVolume { descriptor: DescriptorModel },
    SetVolumeState { volume_id: VolumeId, state: VolumeState },
    UpsertObject { object: FileObjectSnapshot },
    UpsertLink { link: LinkSnapshotModel, traversal_boundary: bool },
    RemoveLink { file_link_id: FileLinkId, object_key: FileKey },
    TombstoneObject { object_key: FileKey },
    RequireReconciliation { volume_id: VolumeId, reason: ReconciliationReason },
}

impl View for GraphMutation {
    type V = MutationModel;

    open spec fn view(&self) -> MutationModel {
        match self {
            GraphMutation::UpsertVolume { descriptor } => MutationModel::UpsertVolume {
                descriptor: descriptor@,
            },
            GraphMutation::SetVolumeState { volume_id, state } => MutationModel::SetVolumeState {
                volume_id: *volume_id,
                state: *state,
            },
            GraphMutation::UpsertObject { object } => MutationModel::UpsertObject {
                object: *object,
            },
            GraphMutation::UpsertLink { link, traversal_boundary } => MutationModel::UpsertLink {
                link: link@,
                traversal_boundary: *traversal_boundary,
            },
            GraphMutation::RemoveLink { file_link_id, object_key } => MutationModel::RemoveLink {
                file_link_id: *file_link_id,
                object_key: *object_key,
            },
            GraphMutation::TombstoneObject { object_key } => MutationModel::TombstoneObject {
                object_key: *object_key,
            },
            GraphMutation::RequireReconciliation { volume_id, reason } => {
                MutationModel::RequireReconciliation { volume_id: *volume_id, reason: *reason }
            },
        }
    }
}

/// The mutation that an event stands for.
pub open spec fn mutation_of(event: FilesystemEvent) -> GraphMutation {
    match event {
        FilesystemEvent::ObjectObserved { object } => GraphMutation::UpsertObject { object },
        FilesystemEvent::LinkObserved { link } => GraphMutation::UpsertLink {
            link,
            traversal_boundary: false,
        },
        FilesystemEvent::LinkRemoved { file_link_id, object_key } => {
            GraphMutation::RemoveLink { file_link_id, object_key }
        },
        FilesystemEvent::ObjectRemoved { object_key } => GraphMutation::TombstoneObject {
            object_key,
        },
        FilesystemEvent::ReconciliationRequired { volume_id, reason } => {
            GraphMutation::RequireReconciliation { volume_id, reason }
        },
    }
}

impl FromSpecImpl<FilesystemEvent> for GraphMutation {
    open spec fn obeys_from_spec() -> bool {
        true
    }

    open spec fn from_spec(event: FilesystemEvent) -> Self {
        mutation_of(event)
    }
}

impl From<FilesystemEvent> for GraphMutation {
    fn from(event: FilesystemEvent) -> (r: Self) {
        match event {
            FilesystemEvent::ObjectObserved { object } => GraphMutation::UpsertObject { object },
            FilesystemEvent::LinkObserved { link } => GraphMutation::UpsertLink {
                link,
                traversal_boundary: false,
            },
            FilesystemEvent::LinkRemoved { file_link_id, object_key } => {
                GraphMutation::RemoveLink { file_link_id, object_key }
            },
            FilesystemEvent::ObjectRemoved { object_key } => GraphMutation::TombstoneObject {
                object_key,
            },
            FilesystemEvent::ReconciliationRequired { volume_id, reason } => {
                GraphMutation::RequireReconciliation { volume_id, reason }
            },
        }
    }
}

/// The mutations that the events stand for, in order.
pub open spec fn mutations_of(events: Seq<FilesystemEvent>) -> Seq<MutationModel> {
    Seq::new(events.len(), |i: int| mutation_of(events[i])@)
}

/// The views of several mutations.
pub open spec fn mutation_models(mutations: Seq<GraphMutation>) -> Seq<MutationModel> {
    Seq::new(mutations.len(), |i: int| mutations[i]@)
}

/// One atomic provider-to-graph ingestion unit.
#[derive(Clone, Debug, PartialEq, Eq)]
pub struct GraphMutationBatch {
    /// Volume whose state is being changed.
    pub volume_id: VolumeId,
    /// Opaque continuation point committed with the graph changes.
    pub checkpoint: ProviderCheckpoint,
    /// Ordered, idempotent graph changes. An empty batch may advance the checkpoint.
    pub mutations: Vec<GraphMutation>,
}

/// A batch as a mathematical value.
pub struct BatchModel {
    pub volume_id: VolumeId,
    pub checkpoint: CheckpointModel,
    pub mutations: Seq<MutationModel>,
}

impl View for GraphMutationBatch {
    type V = BatchModel;

    open spec fn view(&self) -> BatchModel {
        BatchModel {
            volume_id: self.volume_id,
            checkpoint: self.checkpoint@,
            mutations: mutation_models(self.mutations@),
        }
    }
}

/// The volume that a mutation changes.
pub open spec fn volume_of(mutation: MutationModel) -> VolumeId {
    match mutation {
        MutationModel::UpsertVolume { descriptor } => descriptor.volume_id,
        MutationModel::SetVolumeState { volume_id, .. } => volume_id,
        MutationModel::RequireReconciliation { volume_id, .. } => volume_id,
        MutationModel::UpsertObject { object } => object.object_key.volume_id,
        MutationModel::UpsertLink { link, .. } => link.object_key.volume_id,
        MutationModel::RemoveLink { object_key, .. } => object_key.volume_id,
        MutationModel::TombstoneObject { object_key } => object_key.volume_id,
    }
}

/// The mutation is a link whose parent lies on another volume than its object.
pub open spec fn link_crosses_volumes(mutation: MutationModel) -> bool {
    match mutation {
        MutationModel::UpsertLink { link, .. } => match link.parent_key {
            Some(parent) => parent.volume_id != link.object_key.volume_id,
            None => false,
        },
        _ => false,
    }
}

/// What is wrong with a mutation in a batch for the volume, if anything is.
pub open spec fn mutation_fault(mutation: MutationModel, expected: VolumeId) -> Option<ErrorModel> {
    if link_crosses_volumes(mutation) {
        Some(ErrorModel::InvalidBatch("a filesystem link cannot cross volumes"@))
    } else if volume_of(mutation) != expected {
        Some(ErrorModel::InvalidBatch("mutation volume does not match batch volume"@))
    } else {
        None
    }
}

/// What is wrong with the first `n` mutations of a batch: the first fault in order.
pub open spec fn first_fault(
    mutations: Seq<MutationModel>,
    expected: VolumeId,
    n: nat,
) -> Option<ErrorModel>
    decreases n,
{
    if n == 0 {
        None
    } else {
        match first_fault(mutations, expected, (n - 1) as nat) {
            Some(fault) => Some(fault),
            None => mutation_fault(mutations[n - 1], expected),
        }
    }
}

/// What is wrong with a batch, if anything is.
pub open spec fn batch_fault(batch: BatchModel) -> Option<ErrorModel> {
    if batch.checkpoint.volume_id != batch.volume_id {
        Some(ErrorModel::InvalidBatch("checkpoint volume does not match mutation batch"@))
    } else {
        first_fault(batch.mutations, batch.volume_id, batch.mutations.len())
    }
}

proof fn lemma_fault_persists(mutations: Seq<MutationModel>, expected: VolumeId, i: nat, n: nat)
    requires
        i <= n,
        first_fault(mutations, expected, i) is Some,
    ensures
        first_fault(mutations, expected, n) == first_fault(mutations, expected, i),
    decreases n,
{
    if i < n {
        lemma_fault_persists(mutations, expected, i, (n - 1) as nat);
    }
}

/// A batch is accepted exactly when its checkpoint and each of its mutations stay on its volume.
pub proof fn batch_accepted_iff_one_volume(batch: BatchModel)
    ensures
        batch_fault(batch) is None <==> {
            &&& batch.checkpoint.volume_id == batch.volume_id
            &&& forall|i: int|
                0 <= i < batch.mutations.len() ==> volume_of(#[trigger] batch.mutations[i])
                    == batch.volume_id && !link_crosses_volumes(batch.mutations[i])
        },
{
    let n = batch.mutations.len();
    if first_fault(batch.mutations, batch.volume_id, n) is None {
        assert forall|i: int| 0 <= i < n implies volume_of(#[trigger] batch.mutations[i])
            == batch.volume_id && !link_crosses_volumes(batch.mutations[i]) by {
            if first_fault(batch.mutations, batch.volume_id, (i + 1) as nat) is Some {
                lemma_fault_persists(batch.mutations, batch.volume_id, (i + 1) as nat, n);
            }
        }
    } else {
        lemma_fault_has_place(batch.mutations, batch.volume_id, n);
    }
}

proof fn lemma_fault_has_place(mutations: Seq<MutationModel>, expected: VolumeId, n: nat)
    requires
        n <= mutations.len(),
        first_fault(mutations, expected, n) is Some,
    ensures
        exists|i: int|
            0 <= i < n && (volume_of(#[trigger] mutations[i]) != expected || link_crosses_volumes(
                mutations[i],
            )),
    decreases n,
{
    if first_fault(mutations, expected, (n - 1) as nat) is Some {
        lemma_fault_has_place(mutations, expected, (n - 1) as nat);
    } else {
        assert(mutation_fault(mutations[n - 1], expected) is Some);
    }
}

fn validate_mutation_volume(mutation: &GraphMutation, expected: VolumeId) -> (r: GraphResult<()>)
    ensures
        match r {
            Ok(()) => mutation_fault(mutation@, expected) is None,
            Err(e) => mutation_fault(mutation@, expected) == Some(e@),
        },
{
    let actual = match mutation {
        GraphMutation::UpsertVolume { descriptor } => descriptor.volume_id,
        GraphMutation::SetVolumeState { volume_id, .. } => *volume_id,
        GraphMutation::RequireReconciliation { volume_id, .. } => *volume_id,
        GraphMutation::UpsertObject { object } => object.object_key.volume_id,
        GraphMutation::UpsertLink { link, .. } => {
            if let Some(parent) = link.parent_key {
                if parent.volume_id != link.object_key.volume_id {
                    return Err(invalid_batch("a filesystem link cannot cross volumes"));
                }
            }
            link.object_key.volume_id
        },
        GraphMutation::RemoveLink { object_key, .. } => object_key.volume_id,
        GraphMutation::TombstoneObject { object_key } => object_key.volume_id,
    };
    if actual != expected {
        return Err(invalid_batch("mutation volume does not match batch volume"));
    }
    Ok(())
}

impl GraphMutationBatch {
    /// Builds a batch from canonical provider events.
    pub fn from_events(
        volume_id: VolumeId,
        checkpoint: ProviderCheckpoint,
        events: Vec<FilesystemEvent>,
    ) -> (r: Self)
        ensures
            r@ == (BatchModel {
                volume_id,
                checkpoint: checkpoint@,
                mutations: mutations_of(events@),
            }),
    {
        let mut mutations: Vec<GraphMutation> = Vec::new();
        append_events(&mut mutations, events);
        assert(mutation_models(mutations@) =~= mutations_of(events@));
        GraphMutationBatch { volume_id, checkpoint, mutations }
    }

    /// Validates volume isolation before any change is made.
    pub fn validate(&self) -> (r: GraphResult<()>)
        ensures
            match r {
                Ok(()) => batch_fault(self@) is None,
                Err(e) => batch_fault(self@) == Some(e@),
            },
    {
        if self.checkpoint.volume_id != self.volume_id {
            return Err(invalid_batch("checkpoint volume does not match mutation batch"));
        }
        let mut i: usize = 0;
        while i < self.mutations.len()
            invariant
                i <= self.mutations@.len(),
                self@.checkpoint.volume_id == self@.volume_id,
                first_fault(self@.mutations, self.volume_id, i as nat) is None,
            decreases self.mutations@.len() - i,
        {
            assert(self@.mutations[i as int] == self.mutations@[i as int]@);
            if let Err(e) = validate_mutation_volume(&self.mutations[i], self.volume_id) {
                proof {
                    lemma_fault_persists(
                        self@.mutations,
                        self.volume_id,
                        (i + 1) as nat,
                        self@.mutations.len(),
                    );
                }
                return Err(e);
            }
            i = i + 1;
        }
        Ok(())
    }
}

/// Appends the mutations that the events stand for.
pub(crate) fn append_events(mutations: &mut Vec<GraphMutation>, events: Vec<FilesystemEvent>)
    ensures
        mutation_models(final(mutations)@) == mutation_models(old(mutations)@) + mutations_of(
            events@,
        ),
{
    let ghost before = mutations@;
    for event in iter: events
        invariant
            iter.seq() == events@,
            mutations@.len() == before.len() + iter.index(),
            mutations@.take(before.len() as int) == before,
            forall|j: int|
                0 <= j < iter.index() ==> #[trigger] mutations@[before.len() + j]@
                    == mutation_of(events@[j])@,
    {
        let ghost previous = mutations@;
        mutations.push(GraphMutation::from(event));
        proof {
            assert(mutations@.take(before.len() as int) =~= previous.take(before.len() as int));
        }
    }
    proof {
        assert forall|j: int| 0 <= j < before.len() implies mutations@[j] == before[j] by {
            assert(mutations@.take(before.len() as int)[j] == mutations@[j]);
        }
        let whole = mutation_models(before) + mutations_of(events@);
        assert forall|j: int| 0 <= j < whole.len() implies mutation_models(mutations@)[j]
            == whole[j] by {
            if j >= before.len() {
                let k = j - before.len();
                assert(mutations@[before.len() + k]@ == mutations_of(events@)[k]);
            }
        }
        assert(mutation_models(mutations@) =~= whole);
    }
}

/// A derived, platform-neutral current path.
#[derive(Clone, Debug, PartialEq, Eq)]
pub struct ResolvedPath {
    /// Ordered display-name components from the provider root to the selected link.
    pub components: Vec<String>,
}

impl View for ResolvedPath {
    type V = Seq<Seq<char>>;

    open spec fn view(&self) -> Seq<Seq<char>> {
        texts(self.components@)
    }
}

impl ResolvedPath {
    /// Returns a stable display form without imposing an operating-system path syntax.
    pub fn display(&self) -> (r: String)
        ensures
            r@ == joined(self@, '/'),
    {
        join_with(&self.components, '/')
    }
}

/// One bounded deferred path-cache refresh request.
#[derive(Clone, Copy, Debug, PartialEq, Eq, Structural)]
pub struct PathRefreshJob {
    /// Queue identifier.
    pub job_id: i64,
    /// Volume containing the renamed or moved directory.
    pub volume_id: VolumeId,
    /// Directory object whose descendants may have changed derived paths.
    pub root_object: FileKey,
    /// Graph generation that enqueued the work.
    pub enqueued_generation: u64,
}

/// Counts returned after one atomic batch.
#[derive(Clone, Copy, Debug, PartialEq, Eq, Structural)]
pub struct ApplySummary {
    /// Number of supplied mutations.
    pub mutations: u64,
    /// Resulting volume generation.
    pub generation: u64,
    /// Number of new bounded refresh jobs created by this batch.
    pub refresh_jobs_enqueued: u64,
    /// Number of projection mutations appended by this batch.
    pub outbox_mutations_appended: u64,
}

/// Progress of one materialized-index consumer.
#[derive(Clone, Debug, PartialEq, Eq)]
pub struct ProjectorCheckpoint {
    /// Stable consumer identity, normally the catalog schema identifier.
    pub consumer_id: String,
    /// Last outbox sequence made durable in the materialized index.
    pub last_sequence: u64,
    /// Monotonic materialized-index generation.
    pub index_generation: u64,
}

/// Result of one bounded deferred projection-path refresh step.
#[derive(Clone, Copy, Debug, PartialEq, Eq, Structural)]
pub struct ProjectionRefreshSummary {
    /// Number of link rows examined.
    pub links_scanned: u64,
    /// Number of changed catalog documents appended to the outbox.
    pub outbox_mutations_appended: u64,
    /// Whether the selected refresh job reached the end of the catalog.
    pub job_completed: bool,
}

/// Compact graph statistics.
#[derive(Clone, Copy, Debug, PartialEq, Eq, Structural)]
pub struct GraphStats {
    /// Known volumes.
    pub volumes: u64,
    /// Non-tombstoned objects.
    pub live_objects: u64,
    /// Non-tombstoned regular file objects.
    pub live_files: u64,
    /// Logical bytes represented by non-tombstoned regular file objects.
    pub live_file_bytes: u64,
    /// Tombstoned objects retained for convergence.
    pub tombstoned_objects: u64,
    /// Current namespace links.
    pub links: u64,
    /// Pending path refresh jobs.
    pub pending_refresh_jobs: u64,
}

/// Physical allocation and reusable-page accounting for the stored graph.
#[derive(Clone, Copy, Debug, PartialEq, Eq, Structural)]
pub struct GraphStorageStats {
    /// Page size in bytes.
    pub page_size_bytes: u64,
    /// Pages currently allocated by the main database file.
    pub allocated_pages: u64,
    /// Allocated pages that can be reused without growing the database file.
    pub reusable_pages: u64,
    /// Main-database bytes represented by `allocated_pages`.
    pub allocated_bytes: u64,
    /// Bytes already reusable inside the main database file.
    pub reusable_bytes: u64,
    /// Whether bounded incremental vacuum can return tail pages to the filesystem.
    pub incremental_vacuum: bool,
}

/// Result of one bounded projection-outbox maintenance transaction.
#[derive(Clone, Copy, Debug, PartialEq, Eq, Structural)]
pub struct OutboxMaintenanceSummary {
    /// Highest sequence safe to discard while preserving every registered consumer.
    pub safe_through_sequence: Option<u64>,
    /// Rows removed by this bounded transaction.
    pub deleted_rows: u64,
    /// Whether more safe rows remain for a later maintenance quantum.
    pub backlog_remaining: bool,
}

/// Result of one bounded legacy desired-payload compaction transaction.
#[derive(Clone, Copy, Debug, PartialEq, Eq, Structural)]
pub struct DesiredPayloadMaintenanceSummary {
    /// Legacy full-document rows rewritten to compact path-only payloads.
    pub rewritten_rows: u64,
    /// Whether more legacy payload rows remain for a later maintenance quantum.
    pub backlog_remaining: bool,
}

/// A contained integrity problem that can be reconciled without disabling the whole graph.
#[derive(Clone, Copy, Debug, PartialEq, Eq, Structural)]
pub enum GraphIntegrityIssue {
    /// A live object has no current namespace link.
    OrphanObject {
        /// Unreachable physical object.
        object_key: FileKey,
    },
    /// A link refers to a parent object that is not present in the graph.
    MissingParent {
        /// Affected namespace link.
        file_link_id: FileLinkId,
        /// Missing parent identity.
        parent_key: FileKey,
    },
}

impl FromSpecImpl<Availability> for VolumeState {
    open spec fn obeys_from_spec() -> bool {
        true
    }

    open spec fn from_spec(value: Availability) -> Self {
        match value {
            Availability::Online => VolumeState::Online,
            Availability::Offline => VolumeState::Offline,
            Availability::Unknown => VolumeState::NeedsReconciliation,
        }
    }
}

impl From<Availability> for VolumeState {
    fn from(value: Availability) -> (r: Self) {
        match value {
            Availability::Online => VolumeState::Online,
            Availability::Offline => VolumeState::Offline,
            Availability::Unknown => VolumeState::NeedsReconciliation,
        }
    }
}

/// What a batch may touch: whatever its mutations name lies on the volume of the batch, the parents
/// of links among it.
pub proof fn accepted_batches_touch_one_volume(batch: BatchModel, i: int)
    requires
        batch_fault(batch) is None,
        0 <= i < batch.mutations.len(),
    ensures
        batch.checkpoint.volume_id == batch.volume_id,
        match batch.mutations[i] {
            MutationModel::UpsertVolume { descriptor } => descriptor.volume_id == batch.volume_id,
            MutationModel::SetVolumeState { volume_id, .. } => volume_id == batch.volume_id,
            MutationModel::RequireReconciliation { volume_id, .. } => volume_id == batch.volume_id,
            MutationModel::UpsertObject { object } => object.object_key.volume_id
                == batch.volume_id,
            MutationModel::UpsertLink { link, .. } => {
                &&& link.object_key.volume_id == batch.volume_id
                &&& (link.parent_key matches Some(parent) ==> parent.volume_id == batch.volume_id)
            },
            MutationModel::RemoveLink { object_key, .. } => object_key.volume_id
                == batch.volume_id,
            MutationModel::TombstoneObject { object_key } => object_key.volume_id
                == batch.volume_id,
        },
{
    batch_accepted_iff_one_volume(batch);
    assert(volume_of(batch.mutations[i]) == batch.volume_id);
}

/// Different events become different mutations, each of the kind that records the event, and
/// nothing of an event is lost. No event changes what is known of a volume itself, and links that
/// are observed are followed.
pub proof fn events_are_kept_as_they_are(a: FilesystemEvent, b: FilesystemEvent)
    ensures
        mutation_of(a) == mutation_of(b) ==> a == b,
        a is ObjectObserved <==> mutation_of(a) is UpsertObject,
        a is LinkObserved <==> mutation_of(a) is UpsertLink,
        a is LinkRemoved <==> mutation_of(a) is RemoveLink,
        a is ObjectRemoved <==> mutation_of(a) is TombstoneObject,
        a is ReconciliationRequired <==> mutation_of(a) is RequireReconciliation,
        a matches FilesystemEvent::LinkObserved { link } ==> (
        mutation_of(a)@ matches MutationModel::UpsertLink { link: kept, traversal_boundary }
            && kept == link@ && !traversal_boundary),
        a matches FilesystemEvent::LinkRemoved { file_link_id, object_key } ==> (
        mutation_of(a)@ matches MutationModel::RemoveLink { file_link_id: l, object_key: o } && l
            == file_link_id && o == object_key),
{
}

} // verus!
