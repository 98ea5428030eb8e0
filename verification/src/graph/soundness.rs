//! What holds of every graph, and that every operation keeps it.

use vstd::prelude::*;

use crate::catalog::{
    DescriptorModel, FileObjectSnapshot, IndexMutationModel, LinkSnapshotModel,
    ReconciliationReason,
};
use crate::graph::domain::{BatchModel, MutationModel, ObservationScanPhase, VolumeState};

use crate::graph::model::{
    affects, append_outbox, apply_batch, apply_mutation, ascending_links, build_document,
    column_max, document_of, enqueue_if_moved, enqueue_refresh, enqueue_volume_refresh,
    generation_of, is_linked, names_object, occupies, place_link, refresh_pending, remove_link,
    remove_links, run_mutations, stale_conflicts, sync_links, sync_projection, tombstone_object,
    upsert_object, upsert_volume, with_generation, with_state, with_tombstone, GraphModel,
    LinkModel, ProjectionOutboxMode,
};

use crate::ids::{DocumentId, FileKey, FileLinkId, JobId, MutationSeq, VolumeId};
use crate::order::is_listing;
use crate::table::key_rank;

verus! {

/// Two link rows stand at one place.
pub open spec fn collide(a: LinkModel, b: LinkModel) -> bool {
    &&& a.name == b.name
    &&& a.parent_key == b.parent_key
    &&& b.parent_key is None ==> a.object_key.volume_id == b.object_key.volume_id
}

/// Objects lie on known volumes, links name live objects, and no two links stand at one place.
pub open spec fn namespace_sound(m: GraphModel) -> bool {
    &&& forall|k: FileKey| #[trigger]
        m.objects.dom().contains(k) ==> m.volumes.dom().contains(k.volume_id)
    &&& forall|l: FileLinkId| #[trigger]
        m.links.dom().contains(l) ==> m.objects.dom().contains(m.links[l].object_key)
            && !m.objects[m.links[l].object_key].tombstoned
    &&& forall|a: FileLinkId, b: FileLinkId| #[trigger]
        m.links.dom().contains(a) && #[trigger] m.links.dom().contains(b) && a != b ==> !collide(
            m.links[a],
            m.links[b],
        )
}

/// Queued work and sessions belong to known volumes and objects; at most one refresh of a
/// directory is pending; a session has a staged checkpoint exactly once it sweeps.
pub open spec fn queues_sound(m: GraphModel) -> bool {
    &&& 0 <= m.last_job
    &&& forall|j: JobId| #[trigger]
        m.path_jobs.dom().contains(j) ==> 1 <= j.0 <= m.last_job && m.objects.dom().contains(
            m.path_jobs[j].root_object,
        )
    &&& forall|a: JobId, b: JobId| #[trigger]
        m.path_jobs.dom().contains(a) && #[trigger] m.path_jobs.dom().contains(b)
            && m.path_jobs[a].pending && m.path_jobs[b].pending && m.path_jobs[a].root_object
            == m.path_jobs[b].root_object ==> a == b
    &&& forall|v: VolumeId| #[trigger]
        m.volume_jobs.dom().contains(v) ==> m.volumes.dom().contains(v)
    &&& forall|v: VolumeId| #[trigger]
        m.sessions.dom().contains(v) ==> m.volumes.dom().contains(v)
            && m.sessions[v].scan_generation <= column_max() && (m.sessions[v].phase
            == ObservationScanPhase::Scanning <==> m.sessions[v].staged is None)
            && (m.sessions[v].staged matches Some(c) ==> c.volume_id == v)
    &&& forall|v: VolumeId| #[trigger]
        m.checkpoints.dom().contains(v) ==> m.checkpoints[v].volume_id == v
}

/// The outbox holds the most recent sequences without a gap, and no consumer is ahead of it.
pub open spec fn outbox_sound(m: GraphModel) -> bool {
    &&& m.issued <= column_max()
    &&& forall|s: MutationSeq| #[trigger]
        m.outbox.dom().contains(s) ==> 1 <= s.0 <= m.issued
    &&& forall|s: MutationSeq, t: MutationSeq| #[trigger]
        m.outbox.dom().contains(s) && s.0 <= t.0 <= m.issued ==> #[trigger] m.outbox.dom().contains(
            t,
        )
    &&& forall|c: Seq<char>| #[trigger]
        m.consumers.dom().contains(c) ==> m.consumers[c].last_sequence <= m.issued
            && m.consumers[c].index_generation <= column_max()
}

/// Numbers fit the signed columns of the tables.
pub open spec fn ranges_sound(m: GraphModel) -> bool {
    &&& forall|v: VolumeId| #[trigger]
        m.volumes.dom().contains(v) ==> m.volumes[v].generation <= column_max()
            && m.volumes[v].descriptor.volume_id == v
    &&& forall|k: FileKey| #[trigger]
        m.objects.dom().contains(k) ==> m.objects[k].metadata.size <= column_max()
            && m.objects[k].observed <= column_max()
    &&& forall|l: FileLinkId| #[trigger]
        m.links.dom().contains(l) ==> m.links[l].observed <= column_max()
}

/// Every document stands under the identity of its link and belongs to a known object.
pub open spec fn documents_sound(m: GraphModel) -> bool {
    forall|d: DocumentId| #[trigger]
        m.documents.dom().contains(d) ==> m.documents[d].file_link_id.value == d.value
            && m.objects.dom().contains(m.documents[d].object_key)
            && m.documents[d].version <= column_max()
}

/// Every document belongs to a current link, but for the links still to be brought up to date.
pub open spec fn documents_current(m: GraphModel, pending: Set<FileLinkId>) -> bool {
    forall|d: DocumentId| #[trigger]
        m.documents.dom().contains(d) ==> m.links.dom().contains(m.documents[d].file_link_id)
            || pending.contains(m.documents[d].file_link_id)
}

/// What holds between the steps of an operation.
pub open spec fn rows_sound(m: GraphModel) -> bool {
    &&& namespace_sound(m)
    &&& queues_sound(m)
    &&& outbox_sound(m)
    &&& ranges_sound(m)
    &&& documents_sound(m)
}

/// What holds of a graph before and after every operation.
pub open spec fn sound(m: GraphModel) -> bool {
    rows_sound(m) && documents_current(m, Set::empty())
}

/// Creating or updating a volume keeps the graph sound.
pub proof fn lemma_upsert_volume(m: GraphModel, descriptor: DescriptorModel)
    requires
        rows_sound(m),
    ensures
        rows_sound(upsert_volume(m, descriptor)),
{
}

/// Queueing a volume refresh keeps the graph sound.
pub proof fn lemma_enqueue_volume_refresh(m: GraphModel, volume: VolumeId, generation: u64)
    requires
        rows_sound(m),
        m.volumes.dom().contains(volume),
    ensures
        rows_sound(enqueue_volume_refresh(m, volume, generation)),
{
}

/// Changing the state of a volume keeps the graph sound.
pub proof fn lemma_with_state(
    m: GraphModel,
    volume: VolumeId,
    state: VolumeState,
    reason: Option<ReconciliationReason>,
)
    requires
        rows_sound(m),
        m.volumes.dom().contains(volume),
    ensures
        rows_sound(with_state(m, volume, state, reason)),
{
}

/// Advancing the generation of a volume keeps the graph sound.
pub proof fn lemma_with_generation(m: GraphModel, volume: VolumeId, generation: u64)
    requires
        rows_sound(m),
        m.volumes.dom().contains(volume),
        generation <= column_max(),
    ensures
        rows_sound(with_generation(m, volume, generation)),
{
}

proof fn lemma_upsert_object(m: GraphModel, object: FileObjectSnapshot, generation: u64)
    requires
        rows_sound(m),
        generation <= column_max(),
    ensures
        upsert_object(m, object, generation) matches Ok((next, n)) ==> rows_sound(next) && n == 0
            && next.links == m.links && next.documents == m.documents,
{
}

/// Queueing a refresh keeps the graph sound and changes the queue alone.
pub proof fn lemma_enqueue_refresh(m: GraphModel, key: FileKey, generation: u64)
    requires
        rows_sound(m),
        m.objects.dom().contains(key),
    ensures
        enqueue_refresh(m, key, generation) matches Ok((next, n)) ==> rows_sound(next) && n <= 1
            && next == (GraphModel {
            path_jobs: next.path_jobs,
            last_job: next.last_job,
            ..m
        }),
{
    if let Ok((next, n)) = enqueue_refresh(m, key, generation) {
        if !refresh_pending(m, key) {
            let j = JobId(next.last_job);
            assert(!m.path_jobs.dom().contains(j));
            assert forall|a: JobId, b: JobId| #[trigger]
                next.path_jobs.dom().contains(a) && #[trigger] next.path_jobs.dom().contains(b)
                    && next.path_jobs[a].pending && next.path_jobs[b].pending
                    && next.path_jobs[a].root_object == next.path_jobs[b].root_object implies a
                == b by {
                if a == j && b != j {
                    assert(m.path_jobs.dom().contains(b));
                }
                if b == j && a != j {
                    assert(m.path_jobs.dom().contains(a));
                }
            }
        }
    }
}

/// Removing a link keeps the graph sound.
pub proof fn lemma_remove_link(
    m: GraphModel,
    link: FileLinkId,
    expected: FileKey,
    generation: u64,
    refresh: bool,
)
    requires
        rows_sound(m),
    ensures
        remove_link(m, link, expected, generation, refresh) matches Ok((next, n)) ==> {
            &&& rows_sound(next)
            &&& n <= 1
            &&& next.links == m.links.remove(link)
            &&& next.documents == m.documents
            &&& next.objects.dom() == m.objects.dom()
            &&& next.volumes == m.volumes
            &&& next.checkpoints == m.checkpoints
            &&& next.sessions == m.sessions
            &&& next.consumers == m.consumers
            &&& next.outbox == m.outbox
            &&& next.issued == m.issued
        },
        !refresh && m.links.dom().contains(link) && m.links[link].object_key == expected
            ==> remove_link(m, link, expected, generation, refresh) is Ok,
{
    if !m.links.dom().contains(link) {
        assert(m.links.remove(link) =~= m.links);
    } else if m.links[link].object_key == expected {
        let unlinked = GraphModel { links: m.links.remove(link), ..m };
        let next = if is_linked(unlinked, expected) {
            unlinked
        } else {
            with_tombstone(unlinked, expected, true)
        };
        assert(next.objects.dom() =~= m.objects.dom());
        assert(rows_sound(next)) by {
            assert forall|l: FileLinkId| #[trigger] next.links.dom().contains(l) implies
                next.objects.dom().contains(next.links[l].object_key)
                    && !next.objects[next.links[l].object_key].tombstoned by {
                assert(m.links.dom().contains(l));
                if next.links[l].object_key == expected {
                    assert(names_object(unlinked, l, expected));
                }
            }
            assert forall|a: FileLinkId, b: FileLinkId| #[trigger]
                next.links.dom().contains(a) && #[trigger] next.links.dom().contains(b) && a
                    != b implies !collide(next.links[a], next.links[b]) by {
                assert(m.links.dom().contains(a) && m.links.dom().contains(b));
            }
        }
        lemma_enqueue_refresh(next, expected, generation);
    }
}

/// Removing several links keeps the graph sound.
pub proof fn lemma_remove_links(
    m: GraphModel,
    stale: Seq<(FileLinkId, FileKey)>,
    generation: u64,
    n: nat,
)
    requires
        rows_sound(m),
        n <= stale.len(),
    ensures
        remove_links(m, stale, generation, n) matches Ok((next, c)) ==> {
            &&& rows_sound(next)
            &&& c == 0
            &&& next.documents == m.documents
            &&& next.objects.dom() == m.objects.dom()
            &&& next.volumes == m.volumes
            &&& next.sessions == m.sessions
            &&& next.consumers == m.consumers
            &&& next.outbox == m.outbox
            &&& next.issued == m.issued
            &&& forall|l: FileLinkId| #[trigger]
                next.links.dom().contains(l) ==> m.links.dom().contains(l) && next.links[l]
                    == m.links[l]
            &&& forall|l: FileLinkId| #[trigger]
                m.links.dom().contains(l) && !next.links.dom().contains(l) ==> exists|i: int|
                    0 <= i < n && #[trigger] stale[i].0 == l
        },
    decreases n,
{
    if n > 0 {
        lemma_remove_links(m, stale, generation, (n - 1) as nat);
        if let Ok((before, c)) = remove_links(m, stale, generation, (n - 1) as nat) {
            lemma_remove_link(before, stale[n - 1].0, stale[n - 1].1, generation, false);
            if let Ok((next, c)) = remove_links(m, stale, generation, n) {
                assert forall|l: FileLinkId| #[trigger]
                    m.links.dom().contains(l) && !next.links.dom().contains(l) implies exists|
                    i: int,
                |
                    0 <= i < n && #[trigger] stale[i].0 == l by {
                    if before.links.dom().contains(l) {
                        assert(stale[n - 1].0 == l);
                    } else {
                        let i = choose|i: int| 0 <= i < n - 1 && #[trigger] stale[i].0 == l;
                        assert(stale[i].0 == l);
                    }
                }
            }
        }
    }
}

/// Putting a link at its place keeps the graph sound.
pub proof fn lemma_place_link(
    m: GraphModel,
    link: LinkSnapshotModel,
    boundary: bool,
    generation: u64,
)
    requires
        rows_sound(m),
        m.objects.dom().contains(link.object_key),
        generation <= column_max(),
    ensures
        place_link(m, link, boundary, generation) matches Ok((next, n)) ==> {
            &&& rows_sound(next)
            &&& n <= 1
            &&& next.documents == m.documents
            &&& next.volumes == m.volumes
            &&& next.consumers == m.consumers
            &&& next.outbox == m.outbox
            &&& next.issued == m.issued
            &&& next.links.dom() == m.links.dom().insert(link.file_link_id)
        },
{
    lemma_enqueue_refresh(m, link.object_key, generation);
    if let Ok((next, n)) = place_link(m, link, boundary, generation) {
        let id = link.file_link_id;
        let ready = enqueue_if_moved(m, link, generation)->Ok_0.0;
        assert(ready.links == m.links);
        assert(next.objects.dom() =~= m.objects.dom());
        assert forall|l: FileLinkId| #[trigger] next.links.dom().contains(l) implies
            next.objects.dom().contains(next.links[l].object_key)
                && !next.objects[next.links[l].object_key].tombstoned by {
            if l != id {
                assert(m.links.dom().contains(l));
            }
        }
        assert forall|a: FileLinkId, b: FileLinkId| #[trigger]
            next.links.dom().contains(a) && #[trigger] next.links.dom().contains(b) && a
                != b implies !collide(next.links[a], next.links[b]) by {
            if a != id && b != id {
                assert(m.links.dom().contains(a) && m.links.dom().contains(b));
            } else if a == id {
                assert(m.links.dom().contains(b));
                assert(!occupies(ready, b, link));
            } else {
                assert(m.links.dom().contains(a));
                assert(!occupies(ready, a, link));
            }
        }
        assert forall|l: FileLinkId| #[trigger] next.links.dom().contains(l) implies
            next.links[l].observed <= column_max() by {
            if l != id {
                assert(m.links.dom().contains(l));
            }
        }
        assert(next.links.dom() =~= m.links.dom().insert(id));
    }
}

/// Each mutation keeps the graph sound, and a document whose link it takes away is one that it
/// affects.
pub proof fn lemma_apply_mutation(m: GraphModel, mutation: MutationModel, generation: u64)
    requires
        rows_sound(m),
        generation <= column_max(),
    ensures
        apply_mutation(m, mutation, generation) matches Ok((next, n)) ==> {
            &&& rows_sound(next)
            &&& n <= 1
            &&& next.documents == m.documents
            &&& next.consumers == m.consumers
            &&& next.outbox == m.outbox
            &&& next.issued == m.issued
            &&& forall|v: VolumeId| #[trigger]
                m.volumes.dom().contains(v) ==> next.volumes.dom().contains(v)
            &&& forall|l: FileLinkId| #[trigger]
                m.links.dom().contains(l) && !next.links.dom().contains(l) ==> affects(
                    m,
                    mutation,
                    l,
                )
        },
{
    match mutation {
        MutationModel::UpsertVolume { descriptor } => {
            lemma_upsert_volume(m, descriptor);
        },
        MutationModel::SetVolumeState { volume_id, state } => {
            if m.volumes.dom().contains(volume_id) {
                let reason = m.volumes[volume_id].reason;
                lemma_with_state(m, volume_id, state, reason);
                lemma_enqueue_volume_refresh(
                    with_state(m, volume_id, state, reason),
                    volume_id,
                    generation,
                );
            }
        },
        MutationModel::UpsertObject { object } => {
            lemma_upsert_object(m, object, generation);
        },
        MutationModel::UpsertLink { link, traversal_boundary } => {
            let stale = stale_conflicts(m, link);
            lemma_remove_links(m, stale, generation, stale.len());
            if let Ok((next, c)) = remove_links(m, stale, generation, stale.len()) {
                if m.objects.dom().contains(link.object_key) {
                    lemma_place_link(next, link, traversal_boundary, generation);
                }
            }
        },
        MutationModel::RemoveLink { file_link_id, object_key } => {
            lemma_remove_link(m, file_link_id, object_key, generation, true);
        },
        MutationModel::TombstoneObject { object_key } => {
            if let Ok((next, n)) = tombstone_object(m, object_key) {
                assert forall|l: FileLinkId| #[trigger] next.links.dom().contains(l) implies
                    next.objects.dom().contains(next.links[l].object_key)
                        && !next.objects[next.links[l].object_key].tombstoned by {
                    assert(!names_object(m, l, object_key));
                }
                assert(next.objects.dom() =~= m.objects.dom());
            }
        },
        MutationModel::RequireReconciliation { volume_id, reason } => {
            if m.volumes.dom().contains(volume_id) {
                lemma_with_state(
                    m,
                    volume_id,
                    VolumeState::NeedsReconciliation,
                    Some(reason),
                );
                lemma_enqueue_volume_refresh(
                    with_state(m, volume_id, VolumeState::NeedsReconciliation, Some(reason)),
                    volume_id,
                    generation,
                );
            }
        },
    }
}

/// The mutations of a batch keep the graph sound, and every document that lost its link is
/// waiting to be brought up to date.
pub proof fn lemma_run_mutations(
    m: GraphModel,
    mutations: Seq<MutationModel>,
    generation: u64,
    n: nat,
)
    requires
        sound(m),
        generation <= column_max(),
        n <= mutations.len(),
    ensures
        run_mutations(m, mutations, generation, n) matches Ok(p) ==> {
            &&& rows_sound(p.graph)
            &&& documents_current(p.graph, p.affected)
            &&& p.jobs <= n
            &&& p.graph.consumers == m.consumers
            &&& p.graph.documents == m.documents
            &&& p.graph.outbox == m.outbox
            &&& p.graph.issued == m.issued
            &&& forall|v: VolumeId| #[trigger]
                m.volumes.dom().contains(v) ==> p.graph.volumes.dom().contains(v)
        },
    decreases n,
{
    if n > 0 {
        lemma_run_mutations(m, mutations, generation, (n - 1) as nat);
        if let Ok(before) = run_mutations(m, mutations, generation, (n - 1) as nat) {
            lemma_apply_mutation(before.graph, mutations[n - 1], generation);
        }
    }
}

/// Appending to the outbox keeps the graph sound.
pub proof fn lemma_append_outbox(
    m: GraphModel,
    document: DocumentId,
    version: u64,
    mutation: IndexMutationModel,
)
    requires
        rows_sound(m),
    ensures
        append_outbox(m, document, version, mutation) matches Ok(next) ==> {
            &&& rows_sound(next)
            &&& next == (GraphModel { outbox: next.outbox, issued: next.issued, ..m })
            &&& next.issued == m.issued + 1
        },
{
    if let Ok(next) = append_outbox(m, document, version, mutation) {
        assert forall|s: MutationSeq, t: MutationSeq| #[trigger]
            next.outbox.dom().contains(s) && s.0 <= t.0 <= next.issued implies #[trigger] next.outbox.dom().contains(
            t,
        ) by {
            if t.0 == next.issued {
                assert(t == MutationSeq(next.issued));
            } else {
                assert(m.outbox.dom().contains(s));
            }
        }
    }
}

/// Bringing a document up to date keeps the graph sound, and the document then has its link.
pub proof fn lemma_sync_projection(
    m: GraphModel,
    link: FileLinkId,
    version: u64,
    mode: ProjectionOutboxMode,
    pending: Set<FileLinkId>,
)
    requires
        rows_sound(m),
        documents_current(m, pending),
        version <= column_max(),
    ensures
        sync_projection(m, link, version, mode) matches Ok((next, n)) ==> {
            &&& rows_sound(next)
            &&& n <= 1
            &&& next == (GraphModel {
                documents: next.documents,
                outbox: next.outbox,
                issued: next.issued,
                ..m
            })
            &&& next.issued == m.issued + n
            &&& documents_current(next, pending.remove(link))
        },
{
    let id = document_of(link);
    if let Ok((next, n)) = sync_projection(m, link, version, mode) {
        let deletes = !m.links.dom().contains(link) || build_document(m, link, version) is Err;
        if deletes {
            lemma_append_outbox(
                m,
                id,
                version,
                IndexMutationModel::Delete {
                    document_id: id,
                    document_version: crate::ids::DocumentVersion(version),
                },
            );
            assert(!next.documents.dom().contains(id));
            assert(next.documents =~= m.documents.remove(id));
        } else {
            let document = build_document(m, link, version)->Ok_0;
            assert(m.links.dom().contains(link));
            let row = m.links[link];
            if !(m.documents.dom().contains(id) && crate::graph::model::content_unchanged(
                m.documents[id],
                document,
            )) {
                let stored = GraphModel {
                    documents: next.documents,
                    ..m
                };
                assert(rows_sound(stored));
                lemma_append_outbox(
                    stored,
                    id,
                    version,
                    IndexMutationModel::Upsert { document },
                );
            }
        }
        assert forall|d: DocumentId| #[trigger] next.documents.dom().contains(d) implies
            next.links.dom().contains(next.documents[d].file_link_id)
                || pending.remove(link).contains(next.documents[d].file_link_id) by {
            if d != id {
                assert(m.documents.dom().contains(d));
                assert(next.documents[d] == m.documents[d]);
                assert(next.documents[d].file_link_id.value == d.value);
                if next.documents[d].file_link_id == link {
                    assert(d.value == id.value);
                }
            } else {
                assert(next.documents[d].file_link_id.value == d.value);
                assert(next.documents[d].file_link_id == link);
            }
        }
    }
}

/// The members of `links` before position `n`.
pub open spec fn prefix_set(links: Seq<FileLinkId>, n: nat) -> Set<FileLinkId> {
    Set::new(|l: FileLinkId| exists|i: int| 0 <= i < n && #[trigger] links[i] == l)
}

proof fn lemma_prefix_step(links: Seq<FileLinkId>, n: nat, pending: Set<FileLinkId>)
    requires
        0 < n <= links.len(),
    ensures
        pending.difference(prefix_set(links, (n - 1) as nat)).remove(links[n - 1])
            == pending.difference(prefix_set(links, n)),
{
    let earlier = pending.difference(prefix_set(links, (n - 1) as nat));
    assert forall|l: FileLinkId| earlier.remove(links[n - 1]).contains(l) == pending.difference(
        prefix_set(links, n),
    ).contains(l) by {
        if prefix_set(links, n).contains(l) {
            let i = choose|i: int| 0 <= i < n && #[trigger] links[i] == l;
            if i < n - 1 {
                assert(prefix_set(links, (n - 1) as nat).contains(l));
            }
        }
        if prefix_set(links, (n - 1) as nat).contains(l) {
            let i = choose|i: int| 0 <= i < n - 1 && #[trigger] links[i] == l;
            assert(0 <= i < n && links[i] == l);
        }
        if l == links[n - 1] {
            assert(prefix_set(links, n).contains(l));
        }
    }
    assert(earlier.remove(links[n - 1]) =~= pending.difference(prefix_set(links, n)));
}

/// Bringing documents up to date one by one keeps the graph sound.
pub proof fn lemma_sync_links(
    m: GraphModel,
    links: Seq<FileLinkId>,
    version: u64,
    mode: ProjectionOutboxMode,
    n: nat,
    pending: Set<FileLinkId>,
)
    requires
        rows_sound(m),
        documents_current(m, pending),
        version <= column_max(),
        n <= links.len(),
    ensures
        sync_links(m, links, version, mode, n) matches Ok((next, c)) ==> {
            &&& rows_sound(next)
            &&& c <= n
            &&& next == (GraphModel {
                documents: next.documents,
                outbox: next.outbox,
                issued: next.issued,
                ..m
            })
            &&& next.issued == m.issued + c
            &&& documents_current(next, pending.difference(prefix_set(links, n)))
        },
    decreases n,
{
    if n == 0 {
        assert(pending.difference(prefix_set(links, n)) =~= pending);
    } else {
        lemma_sync_links(m, links, version, mode, (n - 1) as nat, pending);
        if let Ok((before, c)) = sync_links(m, links, version, mode, (n - 1) as nat) {
            let earlier = pending.difference(prefix_set(links, (n - 1) as nat));
            lemma_sync_projection(before, links[n - 1], version, mode, earlier);
            lemma_prefix_step(links, n, pending);
        }
    }
}

/// A batch that succeeds keeps the graph sound.
pub proof fn lemma_apply_batch(
    m: GraphModel,
    batch: BatchModel,
    mode: ProjectionOutboxMode,
    links: Seq<FileLinkId>,
)
    requires
        sound(m),
        run_mutations(
            m,
            batch.mutations,
            (generation_of(m, batch.volume_id) + 1) as u64,
            batch.mutations.len(),
        ) matches Ok(p) ==> is_listing(links, |l: FileLinkId| p.affected.contains(l), key_rank::<FileLinkId>())
            && links == ascending_links(p.affected),
    ensures
        apply_batch(m, batch, mode) matches Ok((next, s)) ==> sound(next),
{
    if let Ok((next, s)) = apply_batch(m, batch, mode) {
        let generation = (generation_of(m, batch.volume_id) + 1) as u64;
        lemma_run_mutations(m, batch.mutations, generation, batch.mutations.len());
        let p = run_mutations(m, batch.mutations, generation, batch.mutations.len())->Ok_0;
        lemma_sync_links(p.graph, links, generation, mode, links.len(), p.affected);
        let synced = sync_links(p.graph, links, generation, mode, links.len())->Ok_0.0;
        lemma_with_generation(synced, batch.volume_id, generation);
        let done = prefix_set(links, links.len());
        assert(p.affected.difference(done) =~= Set::empty()) by {
            assert forall|l: FileLinkId| p.affected.contains(l) implies done.contains(l) by {
                let eligible = |l: FileLinkId| p.affected.contains(l);
                assert(eligible(l));
                assert(links.contains(l));
                let i = links.index_of(l);
                assert(links[i] == l);
            }
        }
        assert(documents_current(synced, Set::empty()));
        assert(crate::graph::domain::batch_fault(batch) is None);
    }
}

} // verus!
