//! The graph as a mathematical value: finite maps, and each operation as a function on them.

use vstd::prelude::*;

use crate::catalog::{
    Availability, CatalogIdentity, CheckpointModel, DescriptorModel, DocumentModel, FileKind,
    FileMetadata, FileObjectSnapshot, IndexMutationModel, LinkSnapshotModel,
    ReconciliationReason,
};
use crate::graph::domain::{
    batch_fault, ApplySummary, BatchModel, MutationModel, ObservationScanMode,
    ObservationScanPhase, VolumeState,
};
use crate::graph::error::{ErrorModel, StorageFault};
use crate::graph::fingerprint::document_fingerprint;
use crate::ids::{
    DocumentId, DocumentVersion, FileKey, FileLinkId, JobId, MutationSeq, VolumeId,
};
use crate::order::{is_listing, listing};
use crate::table::key_rank;
use crate::text::{joined, lowercase_of};

verus! {

/// A volume row.
pub struct VolumeModel {
    pub descriptor: DescriptorModel,
    pub state: VolumeState,
    pub reason: Option<ReconciliationReason>,
    pub generation: u64,
}

/// An object row: metadata, whether it is tombstoned, and the generation that last observed it.
#[derive(Clone, Copy, Debug, PartialEq, Eq, Structural)]
pub struct ObjectRow {
    /// Metadata of the object.
    pub metadata: FileMetadata,
    /// Whether the object is gone.
    pub tombstoned: bool,
    /// Generation of the last observation.
    pub observed: u64,
}

/// A link row.
pub struct LinkModel {
    pub object_key: FileKey,
    pub parent_key: Option<FileKey>,
    pub name: Seq<char>,
    pub traversal_boundary: bool,
    pub observed: u64,
}

/// A queued path refresh of the descendants of a directory.
#[derive(Clone, Copy, Debug, PartialEq, Eq, Structural)]
pub struct PathJobRow {
    /// The directory.
    pub root_object: FileKey,
    /// Generation that enqueued it.
    pub generation: u64,
    /// Last link that was refreshed.
    pub cursor: Option<FileLinkId>,
    /// Whether work is left.
    pub pending: bool,
}

/// A queued refresh of every document of a volume.
#[derive(Clone, Copy, Debug, PartialEq, Eq, Structural)]
pub struct VolumeJobRow {
    /// Generation that enqueued it.
    pub generation: u64,
    /// Last link that was refreshed.
    pub cursor: Option<FileLinkId>,
    /// Whether work is left.
    pub pending: bool,
}

/// An observation session row.
pub struct SessionModel {
    pub scan_generation: u64,
    pub mode: ObservationScanMode,
    pub phase: ObservationScanPhase,
    pub staged: Option<CheckpointModel>,
}

/// What a document row stores.
pub enum PayloadModel {
    /// The resolved path and the fingerprint of the content.
    Compact { path: Seq<char>, fingerprint: Seq<u8> },
    /// A complete document, as earlier schema versions stored it.
    Legacy { document: DocumentModel },
}

/// A desired-document row.
pub struct DocumentRowModel {
    pub object_key: FileKey,
    pub file_link_id: FileLinkId,
    pub version: u64,
    pub payload: PayloadModel,
}

/// An outbox row.
pub struct OutboxModel {
    pub document_id: DocumentId,
    pub document_version: u64,
    pub mutation: IndexMutationModel,
}

/// Progress of one consumer.
#[derive(Clone, Copy, Debug, PartialEq, Eq, Structural)]
pub struct ConsumerRow {
    /// Last sequence it has taken over.
    pub last_sequence: u64,
    /// Generation of its index.
    pub index_generation: u64,
}

/// The whole graph.
pub struct GraphModel {
    pub volumes: Map<VolumeId, VolumeModel>,
    pub checkpoints: Map<VolumeId, CheckpointModel>,
    pub objects: Map<FileKey, ObjectRow>,
    pub links: Map<FileLinkId, LinkModel>,
    pub path_jobs: Map<JobId, PathJobRow>,
    pub last_job: i64,
    pub volume_jobs: Map<VolumeId, VolumeJobRow>,
    pub sessions: Map<VolumeId, SessionModel>,
    pub documents: Map<DocumentId, DocumentRowModel>,
    pub outbox: Map<MutationSeq, OutboxModel>,
    pub issued: u64,
    pub consumers: Map<Seq<char>, ConsumerRow>,
}

/// The outcome of an operation: the next graph and a count, or a failure.
pub type Step = Result<(GraphModel, nat), ErrorModel>;

/// Whether projection changes are kept in the outbox.
#[derive(Clone, Copy, Debug, PartialEq, Eq, Structural)]
pub enum ProjectionOutboxMode {
    /// Every change is appended.
    Durable,
    /// Nothing is appended: a consumer will rebuild from the desired documents.
    Rebuildable,
}

/// The largest value of a signed table column.
pub open spec fn column_max() -> int {
    i64::MAX as int
}

/// The graph with nothing in it.
pub open spec fn empty_graph() -> GraphModel {
    GraphModel {
        volumes: Map::empty(),
        checkpoints: Map::empty(),
        objects: Map::empty(),
        links: Map::empty(),
        path_jobs: Map::empty(),
        last_job: 0,
        volume_jobs: Map::empty(),
        sessions: Map::empty(),
        documents: Map::empty(),
        outbox: Map::empty(),
        issued: 0,
        consumers: Map::empty(),
    }
}

/// The document of a link.
pub open spec fn document_of(link: FileLinkId) -> DocumentId {
    DocumentId { value: link.value }
}

/// The link names the object.
pub open spec fn names_object(m: GraphModel, link: FileLinkId, key: FileKey) -> bool {
    m.links.dom().contains(link) && m.links[link].object_key == key
}

/// Some link names the object.
pub open spec fn is_linked(m: GraphModel, key: FileKey) -> bool {
    exists|l: FileLinkId| #[trigger] names_object(m, l, key)
}

/// The generation of a volume; zero if the volume is not known.
pub open spec fn generation_of(m: GraphModel, volume: VolumeId) -> u64 {
    if m.volumes.dom().contains(volume) {
        m.volumes[volume].generation
    } else {
        0
    }
}

/// Sets the tombstone of an object.
pub open spec fn with_tombstone(m: GraphModel, key: FileKey, tombstoned: bool) -> GraphModel {
    GraphModel {
        objects: m.objects.insert(key, ObjectRow { tombstoned, ..m.objects[key] }),
        ..m
    }
}

/// Sets the generation of a volume.
pub open spec fn with_generation(m: GraphModel, volume: VolumeId, generation: u64) -> GraphModel {
    GraphModel {
        volumes: m.volumes.insert(volume, VolumeModel { generation, ..m.volumes[volume] }),
        ..m
    }
}

/// Creates a volume, or brings it back online under the new description.
pub open spec fn upsert_volume(m: GraphModel, descriptor: DescriptorModel) -> GraphModel {
    GraphModel {
        volumes: m.volumes.insert(
            descriptor.volume_id,
            VolumeModel {
                descriptor,
                state: VolumeState::Online,
                reason: None,
                generation: generation_of(m, descriptor.volume_id),
            },
        ),
        ..m
    }
}

/// Queues a refresh of every document of a volume from its first link on.
pub open spec fn enqueue_volume_refresh(
    m: GraphModel,
    volume: VolumeId,
    generation: u64,
) -> GraphModel {
    GraphModel {
        volume_jobs: m.volume_jobs.insert(
            volume,
            VolumeJobRow { generation, cursor: None, pending: true },
        ),
        ..m
    }
}

/// Changes the state of a volume, and its reconciliation reason where one is given.
pub open spec fn with_state(
    m: GraphModel,
    volume: VolumeId,
    state: VolumeState,
    reason: Option<ReconciliationReason>,
) -> GraphModel {
    GraphModel {
        volumes: m.volumes.insert(volume, VolumeModel { state, reason, ..m.volumes[volume] }),
        ..m
    }
}

/// Creates or replaces an object; it is live afterwards.
pub open spec fn upsert_object(m: GraphModel, object: FileObjectSnapshot, generation: u64) -> Step {
    if object.metadata.size > column_max() {
        Err(ErrorModel::NumericRange("file size"@))
    } else if !m.volumes.dom().contains(object.object_key.volume_id) {
        Err(ErrorModel::Storage(StorageFault::UnknownVolume))
    } else {
        Ok(
            (
                GraphModel {
                    objects: m.objects.insert(
                        object.object_key,
                        ObjectRow {
                            metadata: object.metadata,
                            tombstoned: false,
                            observed: generation,
                        },
                    ),
                    ..m
                },
                0,
            ),
        )
    }
}

/// The object is a directory.
pub open spec fn is_directory(m: GraphModel, key: FileKey) -> bool {
    m.objects[key].metadata.kind == FileKind::Directory
}

/// A refresh of the directory is queued already.
pub open spec fn refresh_pending(m: GraphModel, key: FileKey) -> bool {
    exists|j: JobId| #[trigger]
        m.path_jobs.dom().contains(j) && m.path_jobs[j].pending && m.path_jobs[j].root_object == key
}

/// Queues a refresh of a directory, unless one is queued already.
pub open spec fn enqueue_refresh(m: GraphModel, key: FileKey, generation: u64) -> Step {
    if refresh_pending(m, key) {
        Ok((m, 0))
    } else if m.last_job == i64::MAX {
        Err(ErrorModel::Storage(StorageFault::SequenceExhausted))
    } else {
        let next = (m.last_job + 1) as i64;
        Ok(
            (
                GraphModel {
                    path_jobs: m.path_jobs.insert(
                        JobId(next),
                        PathJobRow { root_object: key, generation, cursor: None, pending: true },
                    ),
                    last_job: next,
                    ..m
                },
                1,
            ),
        )
    }
}

/// Removes a link. The object is tombstoned when no link to it is left; other links stay.
pub open spec fn remove_link(
    m: GraphModel,
    link: FileLinkId,
    expected: FileKey,
    generation: u64,
    refresh: bool,
) -> Step {
    if !m.links.dom().contains(link) {
        Ok((m, 0))
    } else if m.links[link].object_key != expected {
        Err(
            ErrorModel::Invariant(
                "link removal object identity does not match durable state"@,
            ),
        )
    } else {
        let unlinked = GraphModel { links: m.links.remove(link), ..m };
        let next = if is_linked(unlinked, expected) {
            unlinked
        } else {
            with_tombstone(unlinked, expected, true)
        };
        if is_directory(m, expected) && refresh {
            enqueue_refresh(next, expected, generation)
        } else {
            Ok((next, 0))
        }
    }
}

/// The row stands at the place in the namespace that the link would take: the same name under
/// the same parent, or the same root name on the same volume.
pub open spec fn same_place(row: LinkModel, link: LinkSnapshotModel) -> bool {
    &&& row.name == link.name
    &&& row.parent_key == link.parent_key
    &&& link.parent_key is None ==> row.object_key.volume_id == link.object_key.volume_id
}

/// Another link stands at the place of this one.
pub open spec fn occupies(m: GraphModel, other: FileLinkId, link: LinkSnapshotModel) -> bool {
    m.links.dom().contains(other) && other != link.file_link_id && same_place(m.links[other], link)
}

/// The links that a scan in progress supersedes by observing this one: the old binding of its
/// identity, and the old holder of its place. Both must be older than the scan.
pub open spec fn stale_conflicts(m: GraphModel, link: LinkSnapshotModel) -> Seq<
    (FileLinkId, FileKey),
> {
    let volume = link.object_key.volume_id;
    if !m.sessions.dom().contains(volume) || m.sessions[volume].phase
        != ObservationScanPhase::Scanning {
        Seq::empty()
    } else {
        let cutoff = m.sessions[volume].scan_generation;
        let id = link.file_link_id;
        let rebound = if m.links.dom().contains(id) && m.links[id].object_key != link.object_key
            && m.links[id].observed < cutoff {
            seq![(id, m.links[id].object_key)]
        } else {
            Seq::empty()
        };
        let replaced = if exists|other: FileLinkId| #[trigger]
            occupies(m, other, link) && m.links[other].observed < cutoff {
            let other = choose|other: FileLinkId| #[trigger]
                occupies(m, other, link) && m.links[other].observed < cutoff;
            seq![(other, m.links[other].object_key)]
        } else {
            Seq::empty()
        };
        rebound + replaced
    }
}

/// The graph after the first `n` of the links are removed.
pub open spec fn remove_links(
    m: GraphModel,
    stale: Seq<(FileLinkId, FileKey)>,
    generation: u64,
    n: nat,
) -> Step
    decreases n,
{
    if n == 0 {
        Ok((m, 0))
    } else {
        match remove_links(m, stale, generation, (n - 1) as nat) {
            Err(e) => Err(e),
            Ok((before, _)) => match remove_link(
                before,
                stale[n - 1].0,
                stale[n - 1].1,
                generation,
                false,
            ) {
                Err(e) => Err(e),
                Ok((after, _)) => Ok((after, 0)),
            },
        }
    }
}

/// Some other link stands at the place of this one.
pub open spec fn place_taken(m: GraphModel, link: LinkSnapshotModel) -> bool {
    exists|other: FileLinkId| #[trigger] occupies(m, other, link)
}

/// Writes the row of a link whose place is free; the object is live afterwards.
pub open spec fn write_link(
    m: GraphModel,
    link: LinkSnapshotModel,
    boundary: bool,
    generation: u64,
) -> Result<GraphModel, ErrorModel> {
    if place_taken(m, link) {
        if link.parent_key is Some {
            Err(ErrorModel::Storage(StorageFault::DuplicateName))
        } else {
            Err(ErrorModel::Storage(StorageFault::DuplicateRootName))
        }
    } else {
        let placed = GraphModel {
            links: m.links.insert(
                link.file_link_id,
                LinkModel {
                    object_key: link.object_key,
                    parent_key: link.parent_key,
                    name: link.name,
                    traversal_boundary: boundary,
                    observed: generation,
                },
            ),
            ..m
        };
        Ok(with_tombstone(placed, link.object_key, false))
    }
}

/// The link exists under another name or another parent.
pub open spec fn is_moved(m: GraphModel, link: LinkSnapshotModel) -> bool {
    let id = link.file_link_id;
    m.links.dom().contains(id) && (m.links[id].parent_key != link.parent_key || m.links[id].name
        != link.name)
}

/// Queues a refresh where the link is a directory that moves.
pub open spec fn enqueue_if_moved(m: GraphModel, link: LinkSnapshotModel, generation: u64) -> Step {
    if is_moved(m, link) && is_directory(m, link.object_key) {
        enqueue_refresh(m, link.object_key, generation)
    } else {
        Ok((m, 0))
    }
}

/// Puts a link at its place, once what it supersedes is gone.
pub open spec fn place_link(
    m: GraphModel,
    link: LinkSnapshotModel,
    boundary: bool,
    generation: u64,
) -> Step {
    let id = link.file_link_id;
    if m.links.dom().contains(id) && m.links[id].object_key != link.object_key {
        Err(ErrorModel::Invariant("a file-link ID cannot be rebound to another object"@))
    } else {
        match enqueue_if_moved(m, link, generation) {
            Err(e) => Err(e),
            Ok((queued, jobs)) => match write_link(queued, link, boundary, generation) {
                Err(e) => Err(e),
                Ok(next) => Ok((next, jobs)),
            },
        }
    }
}

/// Creates or replaces a link.
pub open spec fn upsert_link(
    m: GraphModel,
    link: LinkSnapshotModel,
    boundary: bool,
    generation: u64,
) -> Step {
    if !m.objects.dom().contains(link.object_key) {
        Err(ErrorModel::Invariant("link observation precedes its physical object"@))
    } else {
        let stale = stale_conflicts(m, link);
        match remove_links(m, stale, generation, stale.len()) {
            Err(e) => Err(e),
            Ok((next, _)) => place_link(next, link, boundary, generation),
        }
    }
}

/// Tombstones an object that no link names.
pub open spec fn tombstone_object(m: GraphModel, key: FileKey) -> Step {
    if is_linked(m, key) {
        Err(
            ErrorModel::Invariant(
                "object cannot be tombstoned while namespace links remain"@,
            ),
        )
    } else if !m.objects.dom().contains(key) {
        Err(ErrorModel::Invariant("object tombstone references an unknown object"@))
    } else {
        Ok((with_tombstone(m, key, true), 0))
    }
}

/// One mutation.
pub open spec fn apply_mutation(m: GraphModel, mutation: MutationModel, generation: u64) -> Step {
    match mutation {
        MutationModel::UpsertVolume { descriptor } => Ok((upsert_volume(m, descriptor), 0)),
        MutationModel::SetVolumeState { volume_id, state } => if m.volumes.dom().contains(
            volume_id,
        ) {
            let next = with_state(m, volume_id, state, m.volumes[volume_id].reason);
            Ok((enqueue_volume_refresh(next, volume_id, generation), 1))
        } else {
            Err(ErrorModel::Invariant("volume state update references an unknown volume"@))
        },
        MutationModel::UpsertObject { object } => upsert_object(m, object, generation),
        MutationModel::UpsertLink { link, traversal_boundary } => upsert_link(
            m,
            link,
            traversal_boundary,
            generation,
        ),
        MutationModel::RemoveLink { file_link_id, object_key } => remove_link(
            m,
            file_link_id,
            object_key,
            generation,
            true,
        ),
        MutationModel::TombstoneObject { object_key } => tombstone_object(m, object_key),
        MutationModel::RequireReconciliation { volume_id, reason } => if m.volumes.dom().contains(
            volume_id,
        ) {
            let next = with_state(
                m,
                volume_id,
                VolumeState::NeedsReconciliation,
                Some(reason),
            );
            Ok((enqueue_volume_refresh(next, volume_id, generation), 1))
        } else {
            Err(ErrorModel::Invariant("reconciliation references an unknown volume"@))
        },
    }
}

/// The mutation may change the document of the link.
pub open spec fn affects(m: GraphModel, mutation: MutationModel, link: FileLinkId) -> bool {
    match mutation {
        MutationModel::UpsertLink { link: observed, .. } => link == observed.file_link_id || exists|
            i: int,
        |
            0 <= i < stale_conflicts(m, observed).len() && #[trigger] stale_conflicts(
                m,
                observed,
            )[i].0 == link,
        MutationModel::RemoveLink { file_link_id, .. } => link == file_link_id,
        MutationModel::UpsertObject { object } => names_object(m, link, object.object_key),
        MutationModel::TombstoneObject { object_key } => names_object(m, link, object_key)
            || exists|d: DocumentId| #[trigger]
            m.documents.dom().contains(d) && m.documents[d].object_key == object_key
                && m.documents[d].file_link_id == link,
        _ => false,
    }
}

/// What the first mutations of a batch lead to.
pub struct Progress {
    pub graph: GraphModel,
    pub affected: Set<FileLinkId>,
    pub jobs: nat,
}

/// The graph after the first `n` mutations, with the links whose documents may have changed.
pub open spec fn run_mutations(
    m: GraphModel,
    mutations: Seq<MutationModel>,
    generation: u64,
    n: nat,
) -> Result<Progress, ErrorModel>
    decreases n,
{
    if n == 0 {
        Ok(Progress { graph: m, affected: Set::empty(), jobs: 0 })
    } else {
        match run_mutations(m, mutations, generation, (n - 1) as nat) {
            Err(e) => Err(e),
            Ok(before) => match apply_mutation(before.graph, mutations[n - 1], generation) {
                Err(e) => Err(e),
                Ok((graph, jobs)) => Ok(
                    Progress {
                        graph,
                        affected: before.affected.union(
                            Set::new(
                                |l: FileLinkId| affects(before.graph, mutations[n - 1], l),
                            ),
                        ),
                        jobs: before.jobs + jobs,
                    },
                ),
            },
        }
    }
}

/// The one link of an object.
pub open spec fn only_link(m: GraphModel, key: FileKey) -> Result<FileLinkId, ErrorModel> {
    if !is_linked(m, key) {
        Err(ErrorModel::MissingParent(key))
    } else if exists|a: FileLinkId, b: FileLinkId| #[trigger]
        names_object(m, a, key) && #[trigger] names_object(m, b, key) && a != b {
        Err(ErrorModel::AmbiguousParent(key))
    } else {
        Ok(choose|l: FileLinkId| #[trigger] names_object(m, l, key))
    }
}

/// The names from the root down to a link, where `seen` are the directories climbed through and
/// `room` more names fit.
pub open spec fn climb(
    m: GraphModel,
    link: FileLinkId,
    seen: Set<FileKey>,
    room: nat,
    limit: nat,
    target: bool,
) -> Result<Seq<Seq<char>>, ErrorModel>
    decreases room,
{
    if room == 0 {
        Err(ErrorModel::DepthLimit(limit))
    } else if m.links[link].traversal_boundary && !target {
        Err(ErrorModel::TraversalBoundary(link))
    } else {
        match m.links[link].parent_key {
            None => Ok(seq![m.links[link].name]),
            Some(parent) => if seen.contains(parent) {
                Err(ErrorModel::ParentCycle(parent))
            } else {
                match only_link(m, parent) {
                    Err(e) => Err(e),
                    Ok(next) => match climb(
                        m,
                        next,
                        seen.insert(parent),
                        (room - 1) as nat,
                        limit,
                        false,
                    ) {
                        Err(e) => Err(e),
                        Ok(above) => Ok(above.push(m.links[link].name)),
                    },
                }
            },
        }
    }
}

/// The path of a link.
pub open spec fn resolve_path(m: GraphModel, link: FileLinkId, limit: nat) -> Result<
    Seq<Seq<char>>,
    ErrorModel,
> {
    if limit == 0 {
        Err(ErrorModel::DepthLimit(0))
    } else if !m.links.dom().contains(link) {
        Err(ErrorModel::LinkNotFound(link))
    } else {
        climb(m, link, Set::empty(), limit, limit, true)
    }
}

/// The depth to which catalog paths are derived.
pub open spec fn catalog_depth() -> nat {
    512
}

/// The availability of an object on a volume in the state.
pub open spec fn effective_availability(
    own: Availability,
    state: VolumeState,
) -> Availability {
    match state {
        VolumeState::Online => own,
        VolumeState::Offline => Availability::Offline,
        VolumeState::NeedsReconciliation => Availability::Unknown,
    }
}

/// The last dot of a name stands at `i`.
pub open spec fn is_last_dot(name: Seq<char>, i: int) -> bool {
    &&& 0 <= i < name.len()
    &&& name[i] == '.'
    &&& forall|j: int| i < j < name.len() ==> #[trigger] name[j] != '.'
}

/// The text after the last dot in lower case; none without a dot or with nothing after it.
pub open spec fn extension_of(name: Seq<char>) -> Option<Seq<char>> {
    if exists|i: int| #[trigger] is_last_dot(name, i) && i + 1 < name.len() {
        let dot = choose|i: int| #[trigger] is_last_dot(name, i) && i + 1 < name.len();
        Some(lowercase_of(name.subrange(dot + 1, name.len() as int)))
    } else {
        None
    }
}

/// The document that a link should have.
pub open spec fn build_document(m: GraphModel, link: FileLinkId, version: u64) -> Result<
    DocumentModel,
    ErrorModel,
> {
    let row = m.links[link];
    if !m.objects.dom().contains(row.object_key) || m.objects[row.object_key].tombstoned {
        Err(ErrorModel::Invariant("catalog link references a missing object"@))
    } else if !m.volumes.dom().contains(row.object_key.volume_id) {
        Err(ErrorModel::Invariant("catalog object references a missing volume"@))
    } else {
        let metadata = m.objects[row.object_key].metadata;
        let state = m.volumes[row.object_key.volume_id].state;
        match resolve_path(m, link, catalog_depth()) {
            Err(e) => Err(e),
            Ok(path) => Ok(
                DocumentModel {
                    identity: CatalogIdentity {
                        object_key: row.object_key,
                        file_link_id: link,
                        document_id: document_of(link),
                    },
                    document_version: DocumentVersion(version),
                    name: row.name,
                    resolved_path: joined(path, '/'),
                    extension: extension_of(row.name),
                    metadata: FileMetadata {
                        availability: effective_availability(metadata.availability, state),
                        ..metadata
                    },
                },
            ),
        }
    }
}

/// Appends one change to the outbox.
pub open spec fn append_outbox(
    m: GraphModel,
    document: DocumentId,
    version: u64,
    mutation: IndexMutationModel,
) -> Result<GraphModel, ErrorModel> {
    if m.issued >= column_max() {
        Err(ErrorModel::Storage(StorageFault::SequenceExhausted))
    } else {
        let next = (m.issued + 1) as u64;
        Ok(
            GraphModel {
                outbox: m.outbox.insert(
                    MutationSeq(next),
                    OutboxModel { document_id: document, document_version: version, mutation },
                ),
                issued: next,
                ..m
            },
        )
    }
}

/// Removes a desired document.
pub open spec fn delete_projection(
    m: GraphModel,
    document: DocumentId,
    version: u64,
    mode: ProjectionOutboxMode,
) -> Step {
    if !m.documents.dom().contains(document) {
        Ok((m, 0))
    } else if mode == ProjectionOutboxMode::Durable {
        match append_outbox(
            m,
            document,
            version,
            IndexMutationModel::Delete {
                document_id: document,
                document_version: DocumentVersion(version),
            },
        ) {
            Err(e) => Err(e),
            Ok(next) => Ok((GraphModel { documents: next.documents.remove(document), ..next }, 1)),
        }
    } else {
        Ok((GraphModel { documents: m.documents.remove(document), ..m }, 0))
    }
}

/// The stored document says what `document` says.
pub open spec fn content_unchanged(row: DocumentRowModel, document: DocumentModel) -> bool {
    match row.payload {
        PayloadModel::Compact { fingerprint, .. } => fingerprint == document_fingerprint(document),
        PayloadModel::Legacy { document: previous } => crate::catalog::same_content(
            previous,
            document,
        ),
    }
}

/// Stores a desired document.
pub open spec fn store_projection(
    m: GraphModel,
    link: FileLinkId,
    document: DocumentModel,
    version: u64,
    mode: ProjectionOutboxMode,
) -> Step {
    let id = document_of(link);
    if m.documents.dom().contains(id) && content_unchanged(m.documents[id], document) {
        Ok((m, 0))
    } else {
        let stored = GraphModel {
            documents: m.documents.insert(
                id,
                DocumentRowModel {
                    object_key: m.links[link].object_key,
                    file_link_id: link,
                    version,
                    payload: PayloadModel::Compact {
                        path: document.resolved_path,
                        fingerprint: document_fingerprint(document),
                    },
                },
            ),
            ..m
        };
        if mode == ProjectionOutboxMode::Durable {
            match append_outbox(stored, id, version, IndexMutationModel::Upsert { document }) {
                Err(e) => Err(e),
                Ok(next) => Ok((next, 1)),
            }
        } else {
            Ok((stored, 0))
        }
    }
}

/// The failure means that the link has no current path.
pub open spec fn has_no_path(e: ErrorModel) -> bool {
    match e {
        ErrorModel::MissingParent(_) => true,
        ErrorModel::AmbiguousParent(_) => true,
        ErrorModel::ParentCycle(_) => true,
        ErrorModel::TraversalBoundary(_) => true,
        ErrorModel::DepthLimit(_) => true,
        _ => false,
    }
}

/// Brings the desired document of a link up to date.
pub open spec fn sync_projection(
    m: GraphModel,
    link: FileLinkId,
    version: u64,
    mode: ProjectionOutboxMode,
) -> Step {
    if !m.links.dom().contains(link) {
        delete_projection(m, document_of(link), version, mode)
    } else {
        match build_document(m, link, version) {
            Ok(document) => store_projection(m, link, document, version, mode),
            Err(e) => if has_no_path(e) {
                delete_projection(m, document_of(link), version, mode)
            } else {
                Err(e)
            },
        }
    }
}

/// The graph after the documents of the first `n` links are brought up to date.
pub open spec fn sync_links(
    m: GraphModel,
    links: Seq<FileLinkId>,
    version: u64,
    mode: ProjectionOutboxMode,
    n: nat,
) -> Step
    decreases n,
{
    if n == 0 {
        Ok((m, 0))
    } else {
        match sync_links(m, links, version, mode, (n - 1) as nat) {
            Err(e) => Err(e),
            Ok((before, count)) => match sync_projection(before, links[n - 1], version, mode) {
                Err(e) => Err(e),
                Ok((after, appended)) => Ok((after, count + appended)),
            },
        }
    }
}

/// The members of a set of links, in ascending order.
pub open spec fn ascending_links(s: Set<FileLinkId>) -> Seq<FileLinkId> {
    listing(|l: FileLinkId| s.contains(l), key_rank::<FileLinkId>())
}

/// The links that a batch touches can be listed.
pub open spec fn lists_touched_links(m: GraphModel, batch: BatchModel) -> bool {
    let generation = (generation_of(m, batch.volume_id) + 1) as u64;
    run_mutations(m, batch.mutations, generation, batch.mutations.len()) matches Ok(progress)
        ==> is_listing(
        ascending_links(progress.affected),
        |l: FileLinkId| progress.affected.contains(l),
        key_rank::<FileLinkId>(),
    )
}

/// One atomic batch: every mutation, the documents they touch, the generation and the checkpoint.
pub open spec fn apply_batch(m: GraphModel, batch: BatchModel, mode: ProjectionOutboxMode) -> Result<
    (GraphModel, ApplySummary),
    ErrorModel,
> {
    let current = generation_of(m, batch.volume_id);
    if batch_fault(batch) is Some {
        Err(batch_fault(batch)->0)
    } else if mode == ProjectionOutboxMode::Rebuildable && m.consumers.dom() != Set::<
        Seq<char>,
    >::empty() {
        Err(
            ErrorModel::Invariant(
                "rebuildable graph batch requires zero projection consumers"@,
            ),
        )
    } else if current >= column_max() {
        Err(ErrorModel::NumericRange("graph generation"@))
    } else {
        let generation = (current + 1) as u64;
        match run_mutations(m, batch.mutations, generation, batch.mutations.len()) {
            Err(e) => Err(e),
            Ok(progress) => {
                let links = ascending_links(progress.affected);
                match sync_links(progress.graph, links, generation, mode, links.len()) {
                    Err(e) => Err(e),
                    Ok((synced, appended)) => if !synced.volumes.dom().contains(batch.volume_id) {
                        Err(
                            ErrorModel::Invariant(
                                "batch must upsert its volume before graph observations"@,
                            ),
                        )
                    } else {
                        let next = with_generation(synced, batch.volume_id, generation);
                        Ok(
                            (
                                GraphModel {
                                    checkpoints: next.checkpoints.insert(
                                        batch.volume_id,
                                        batch.checkpoint,
                                    ),
                                    ..next
                                },
                                ApplySummary {
                                    mutations: batch.mutations.len() as u64,
                                    generation,
                                    refresh_jobs_enqueued: progress.jobs as u64,
                                    outbox_mutations_appended: appended as u64,
                                },
                            ),
                        )
                    },
                }
            },
        }
    }
}

} // verus!
