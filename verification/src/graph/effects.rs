//! What each mutation does to the graph, and how it reaches the documents and their consumers.

use vstd::prelude::*;

use crate::catalog::{
    Availability, DescriptorModel, DocumentModel, FileKind, FileObjectSnapshot,
    LinkSnapshotModel, ReconciliationReason,
};
use crate::graph::domain::{BatchModel, MutationModel, ObservationScanPhase, VolumeState};
use crate::graph::error::ErrorModel;
use crate::graph::fingerprint::{fingerprints_tell_contents_apart, is_told_apart};
use crate::graph::laws::{
    batch_settles_the_links_it_touches, caught_up, consumers_follow_a_batch, mirrors, settled,
};
use crate::graph::model::{
    affects, apply_batch, apply_mutation, ascending_links, build_document, catalog_depth, climb,
    column_max, content_unchanged, document_of, effective_availability, empty_graph,
    extension_of, generation_of, is_linked, lists_touched_links, names_object, occupies,
    only_link, refresh_pending, remove_link, remove_links, resolve_path, run_mutations,
    stale_conflicts, GraphModel, LinkModel, ProjectionOutboxMode,
};
use crate::graph::soundness::{
    lemma_apply_batch, lemma_enqueue_refresh, lemma_place_link, lemma_remove_link,
    lemma_remove_links, lemma_run_mutations, lemma_sync_links, rows_sound, sound,
};
use crate::ids::{DocumentId, FileKey, FileLinkId, JobId, VolumeId};
use crate::text::joined;

verus! {

/// An observed object is recorded as it was seen, is live, and bears the generation of the
/// observation. Nothing else changes. It is refused exactly where its volume is not known or its
/// size does not fit.
pub proof fn observed_objects_are_recorded(
    m: GraphModel,
    object: FileObjectSnapshot,
    generation: u64,
)
    ensures
        ({
            let outcome = apply_mutation(m, MutationModel::UpsertObject { object }, generation);
            &&& outcome is Ok <==> m.volumes.dom().contains(object.object_key.volume_id)
                && object.metadata.size <= i64::MAX
            &&& outcome matches Ok((next, jobs)) ==> {
                let key = object.object_key;
                &&& jobs == 0
                &&& next.objects.dom() == m.objects.dom().insert(key)
                &&& next.objects[key].metadata == object.metadata
                &&& !next.objects[key].tombstoned
                &&& next.objects[key].observed == generation
                &&& forall|k: FileKey| k != key ==> #[trigger] next.objects[k] == m.objects[k]
                &&& next == (GraphModel { objects: next.objects, ..m })
            }
        }),
{
}

/// A link that is observed while no scan replaces what it finds stands where it was seen and names
/// a live object; no other link changes. It is refused exactly where its object is not known, its
/// identity belongs to another object, or another link stands at its place.
pub proof fn observed_links_are_placed(
    m: GraphModel,
    link: LinkSnapshotModel,
    boundary: bool,
    generation: u64,
)
    requires
        !m.sessions.dom().contains(link.object_key.volume_id)
            || m.sessions[link.object_key.volume_id].phase != ObservationScanPhase::Scanning,
        m.last_job < i64::MAX,
    ensures
        ({
            let id = link.file_link_id;
            let outcome = apply_mutation(
                m,
                MutationModel::UpsertLink { link, traversal_boundary: boundary },
                generation,
            );
            let known = m.links.dom().contains(id);
            &&& outcome is Ok <==> {
                &&& m.objects.dom().contains(link.object_key)
                &&& known ==> m.links[id].object_key == link.object_key
                &&& forall|other: FileLinkId|
                    other != id && #[trigger] m.links.dom().contains(other) ==> m.links[other].name
                        != link.name || m.links[other].parent_key != link.parent_key || (
                    link.parent_key is None && m.links[other].object_key.volume_id
                        != link.object_key.volume_id)
            }
            &&& outcome matches Ok((next, jobs)) ==> {
                &&& next.links.dom() == m.links.dom().insert(id)
                &&& next.links[id] == LinkModel {
                    object_key: link.object_key,
                    parent_key: link.parent_key,
                    name: link.name,
                    traversal_boundary: boundary,
                    observed: generation,
                }
                &&& forall|l: FileLinkId| l != id ==> #[trigger] next.links[l] == m.links[l]
                &&& next.objects.dom() == m.objects.dom()
                &&& !next.objects[link.object_key].tombstoned
                &&& next.objects[link.object_key].metadata == m.objects[link.object_key].metadata
                &&& next.volumes == m.volumes
                &&& next.sessions == m.sessions
                &&& next.documents == m.documents
                &&& known && (m.links[id].name != link.name || m.links[id].parent_key
                    != link.parent_key) && m.objects[link.object_key].metadata.kind
                    == FileKind::Directory ==> refresh_pending(next, link.object_key)
                &&& jobs > 0 ==> known && m.objects[link.object_key].metadata.kind
                    == FileKind::Directory
            }
        }),
{
    let id = link.file_link_id;
    assert(remove_links(m, Seq::empty(), generation, 0) == Ok::<(GraphModel, nat), ErrorModel>(
        (m, 0),
    ));
    if crate::graph::model::place_taken(m, link) {
        let other = choose|other: FileLinkId| #[trigger] occupies(m, other, link);
        assert(m.links.dom().contains(other));
    }
    let outcome = apply_mutation(
        m,
        MutationModel::UpsertLink { link, traversal_boundary: boundary },
        generation,
    );
    let queued = crate::graph::model::enqueue_if_moved(m, link, generation);
    if let Ok((ready, jobs)) = queued {
        assert(ready.links == m.links);
        assert forall|other: FileLinkId| occupies(ready, other, link) == occupies(m, other, link) by {
        }
        if crate::graph::model::place_taken(ready, link) {
            let other = choose|other: FileLinkId| #[trigger] occupies(ready, other, link);
            assert(occupies(m, other, link));
        }
        if crate::graph::model::place_taken(m, link) {
            let other = choose|other: FileLinkId| #[trigger] occupies(m, other, link);
            assert(occupies(ready, other, link));
        }
    }
    if m.objects.dom().contains(link.object_key) && (m.links.dom().contains(id)
        ==> m.links[id].object_key == link.object_key) && (forall|other: FileLinkId|
        other != id && #[trigger] m.links.dom().contains(other) ==> m.links[other].name
            != link.name || m.links[other].parent_key != link.parent_key || (link.parent_key is None
            && m.links[other].object_key.volume_id != link.object_key.volume_id)) {
        assert forall|other: FileLinkId| !#[trigger] occupies(m, other, link) by {
            if occupies(m, other, link) {
                assert(m.links.dom().contains(other));
            }
        }
        assert(!crate::graph::model::place_taken(m, link));
    }
    if outcome is Ok {
        assert forall|other: FileLinkId| other != id && #[trigger] m.links.dom().contains(
            other,
        ) implies m.links[other].name != link.name || m.links[other].parent_key != link.parent_key
            || (link.parent_key is None && m.links[other].object_key.volume_id
            != link.object_key.volume_id) by {
            assert(!occupies(m, other, link));
        }
        let next = outcome->Ok_0.0;
        assert(next.links.dom() =~= m.links.dom().insert(id));
        assert(next.objects.dom() =~= m.objects.dom());
        let ready = queued->Ok_0.0;
        assert(next.path_jobs == ready.path_jobs);
        if refresh_pending(ready, link.object_key) {
            let j = choose|j: JobId| #[trigger]
                ready.path_jobs.dom().contains(j) && ready.path_jobs[j].pending
                    && ready.path_jobs[j].root_object == link.object_key;
            assert(next.path_jobs.dom().contains(j));
        }
        if crate::graph::model::is_moved(m, link) && crate::graph::model::is_directory(
            m,
            link.object_key,
        ) {
            lemma_refresh_is_queued(m, link.object_key, generation);
        }
    }
}

proof fn lemma_refresh_is_queued(m: GraphModel, key: FileKey, generation: u64)
    ensures
        crate::graph::model::enqueue_refresh(m, key, generation) matches Ok((next, n))
            ==> refresh_pending(next, key),
{
    if let Ok((next, n)) = crate::graph::model::enqueue_refresh(m, key, generation) {
        if !refresh_pending(m, key) {
            assert(next.path_jobs.dom().contains(JobId(next.last_job)));
        }
    }
}

/// A removed link is gone and no other is: what is removed twice stays removed, and a link is
/// never removed on behalf of an object that it does not name. A directory that loses a link has
/// the paths below it refreshed.
pub proof fn removed_links_are_gone(
    m: GraphModel,
    link: FileLinkId,
    object_key: FileKey,
    generation: u64,
)
    requires
        rows_sound(m),
        m.last_job < i64::MAX,
    ensures
        ({
            let outcome = apply_mutation(
                m,
                MutationModel::RemoveLink { file_link_id: link, object_key },
                generation,
            );
            let known = m.links.dom().contains(link);
            &&& outcome is Ok <==> (known ==> m.links[link].object_key == object_key)
            &&& outcome matches Ok((next, jobs)) ==> {
                &&& !next.links.dom().contains(link)
                &&& forall|l: FileLinkId|
                    l != link ==> (#[trigger] next.links.dom().contains(l)
                        == m.links.dom().contains(l)) && next.links[l] == m.links[l]
                &&& !known ==> next == m && jobs == 0
                &&& known ==> (next.objects[object_key].tombstoned <==> !is_linked(
                    next,
                    object_key,
                ))
                &&& known && m.objects[object_key].metadata.kind == FileKind::Directory
                    ==> refresh_pending(next, object_key)
                &&& forall|k: FileKey| k != object_key ==> #[trigger] next.objects[k] == m.objects[k]
                &&& next.objects[object_key].metadata == m.objects[object_key].metadata
                &&& next.volumes == m.volumes
                &&& next.documents == m.documents
            }
        }),
{
    lemma_remove_link(m, link, object_key, generation, true);
    if m.links.dom().contains(link) && m.links[link].object_key == object_key {
        let unlinked = GraphModel { links: m.links.remove(link), ..m };
        let bare = if is_linked(unlinked, object_key) {
            unlinked
        } else {
            crate::graph::model::with_tombstone(unlinked, object_key, true)
        };
        lemma_refresh_is_queued(bare, object_key, generation);
        if let Ok((next, n)) = remove_link(m, link, object_key, generation, true) {
            assert(next.links == unlinked.links);
            assert(!m.objects[object_key].tombstoned);
            if is_linked(unlinked, object_key) {
                let l = choose|l: FileLinkId| #[trigger] names_object(unlinked, l, object_key);
                assert(names_object(next, l, object_key));
            }
            if is_linked(next, object_key) {
                let l = choose|l: FileLinkId| #[trigger] names_object(next, l, object_key);
                assert(names_object(unlinked, l, object_key));
            }
        }
    }
}

/// An object is tombstoned exactly when it is known and no link names it; nothing else changes.
pub proof fn only_unlinked_objects_are_tombstoned(m: GraphModel, key: FileKey, generation: u64)
    ensures
        ({
            let outcome = apply_mutation(
                m,
                MutationModel::TombstoneObject { object_key: key },
                generation,
            );
            &&& outcome is Ok <==> m.objects.dom().contains(key) && forall|l: FileLinkId|
                #[trigger] m.links.dom().contains(l) ==> m.links[l].object_key != key
            &&& outcome matches Ok((next, jobs)) ==> {
                &&& next.objects[key].tombstoned
                &&& next.objects[key].metadata == m.objects[key].metadata
                &&& forall|k: FileKey| k != key ==> #[trigger] next.objects[k] == m.objects[k]
                &&& next.objects.dom() == m.objects.dom()
                &&& next == (GraphModel { objects: next.objects, ..m })
            }
        }),
{
    if is_linked(m, key) {
        let l = choose|l: FileLinkId| #[trigger] names_object(m, l, key);
        assert(m.links.dom().contains(l));
    } else {
        assert forall|l: FileLinkId| #[trigger] m.links.dom().contains(l) implies m.links[l].object_key
            != key by {
            assert(!names_object(m, l, key));
        }
        if let Ok((next, jobs)) = apply_mutation(
            m,
            MutationModel::TombstoneObject { object_key: key },
            generation,
        ) {
            assert(next.objects.dom() =~= m.objects.dom());
        }
    }
}

/// A volume that is described again is online under the new description and keeps its generation.
pub proof fn described_volumes_are_online(
    m: GraphModel,
    descriptor: DescriptorModel,
    generation: u64,
)
    ensures
        apply_mutation(m, MutationModel::UpsertVolume { descriptor }, generation) matches Ok(
            (next, jobs),
        ) && {
            let volume = descriptor.volume_id;
            &&& jobs == 0
            &&& next.volumes.dom() == m.volumes.dom().insert(volume)
            &&& next.volumes[volume].descriptor == descriptor
            &&& next.volumes[volume].state == VolumeState::Online
            &&& next.volumes[volume].reason is None
            &&& m.volumes.dom().contains(volume) ==> next.volumes[volume].generation
                == m.volumes[volume].generation
            &&& !m.volumes.dom().contains(volume) ==> next.volumes[volume].generation == 0
            &&& forall|v: VolumeId| v != volume ==> #[trigger] next.volumes[v] == m.volumes[v]
            &&& next == (GraphModel { volumes: next.volumes, ..m })
        },
{
}

/// Nothing differs but the state of the volume and the queue of its refresh.
pub open spec fn only_the_state_changed(m: GraphModel, next: GraphModel, volume: VolumeId) -> bool {
    &&& next.volumes[volume].generation == m.volumes[volume].generation
    &&& next.volumes[volume].descriptor == m.volumes[volume].descriptor
    &&& forall|v: VolumeId| v != volume ==> #[trigger] next.volumes[v] == m.volumes[v]
    &&& forall|v: VolumeId| v != volume ==> #[trigger] next.volume_jobs[v] == m.volume_jobs[v]
    &&& next == (GraphModel { volumes: next.volumes, volume_jobs: next.volume_jobs, ..m })
}

/// A change of the state of a known volume is recorded, and every document of the volume is
/// queued to be brought up to date from the first one on. An unknown volume is refused.
pub proof fn changes_of_state_queue_a_refresh(
    m: GraphModel,
    volume: VolumeId,
    state: VolumeState,
    reason: ReconciliationReason,
    generation: u64,
)
    ensures
        ({
            let told = apply_mutation(
                m,
                MutationModel::SetVolumeState { volume_id: volume, state },
                generation,
            );
            let lost = apply_mutation(
                m,
                MutationModel::RequireReconciliation { volume_id: volume, reason },
                generation,
            );
            &&& told is Ok <==> m.volumes.dom().contains(volume)
            &&& lost is Ok <==> m.volumes.dom().contains(volume)
            &&& told matches Ok((next, jobs)) ==> {
                &&& jobs == 1
                &&& next.volumes[volume].state == state
                &&& next.volumes[volume].reason == m.volumes[volume].reason
                &&& next.volume_jobs.dom().contains(volume)
                &&& next.volume_jobs[volume].pending
                &&& next.volume_jobs[volume].cursor is None
                &&& next.volume_jobs[volume].generation == generation
            }
            &&& lost matches Ok((next, jobs)) ==> {
                &&& jobs == 1
                &&& next.volumes[volume].state == VolumeState::NeedsReconciliation
                &&& next.volumes[volume].reason == Some(reason)
                &&& next.volume_jobs.dom().contains(volume)
                &&& next.volume_jobs[volume].pending
                &&& next.volume_jobs[volume].cursor is None
                &&& next.volume_jobs[volume].generation == generation
            }
            &&& told matches Ok((next, jobs)) ==> only_the_state_changed(m, next, volume)
            &&& lost matches Ok((next, jobs)) ==> only_the_state_changed(m, next, volume)
        }),
{
}

/// A document says of a link what the graph says: its name, the names above it joined by slashes,
/// and the metadata of its object, with the availability of the volume where the volume is not
/// online.
pub proof fn documents_say_what_the_graph_says(m: GraphModel, link: FileLinkId, version: u64)
    ensures
        build_document(m, link, version) matches Ok(document) ==> {
            let row = m.links[link];
            let object = m.objects[row.object_key];
            let state = m.volumes[row.object_key.volume_id].state;
            &&& m.objects.dom().contains(row.object_key) && !object.tombstoned
            &&& m.volumes.dom().contains(row.object_key.volume_id)
            &&& document.identity.object_key == row.object_key
            &&& document.identity.file_link_id == link
            &&& document.identity.document_id.value == link.value
            &&& document.document_version.0 == version
            &&& document.name == row.name
            &&& document.extension == extension_of(row.name)
            &&& resolve_path(m, link, 512) matches Ok(path) && document.resolved_path == joined(
                path,
                '/',
            )
            &&& document.metadata.kind == object.metadata.kind
            &&& document.metadata.size == object.metadata.size
            &&& document.metadata.created_at_unix_ms == object.metadata.created_at_unix_ms
            &&& document.metadata.modified_at_unix_ms == object.metadata.modified_at_unix_ms
            &&& document.metadata.hidden == object.metadata.hidden
            &&& state == VolumeState::Online ==> document.metadata.availability
                == object.metadata.availability
            &&& state == VolumeState::Offline ==> document.metadata.availability
                == Availability::Offline
            &&& state == VolumeState::NeedsReconciliation ==> document.metadata.availability
                == Availability::Unknown
        },
{
}

/// A link without a document has a reason: its object is gone, its volume is not known, or it has
/// no path. Every other link has one.
pub proof fn links_with_a_path_have_a_document(m: GraphModel, link: FileLinkId, version: u64)
    ensures
        build_document(m, link, version) is Ok <==> {
            &&& m.objects.dom().contains(m.links[link].object_key)
            &&& !m.objects[m.links[link].object_key].tombstoned
            &&& m.volumes.dom().contains(m.links[link].object_key.volume_id)
            &&& resolve_path(m, link, 512) is Ok
        },
{
}

/// More than one link names the object.
pub open spec fn has_several_links(m: GraphModel, key: FileKey) -> bool {
    exists|a: FileLinkId, b: FileLinkId| #[trigger]
        names_object(m, a, key) && #[trigger] names_object(m, b, key) && a != b
}

/// The failure says truly why a link has no path.
pub open spec fn is_a_reason(m: GraphModel, e: ErrorModel, limit: nat) -> bool {
    match e {
        ErrorModel::MissingParent(key) => !is_linked(m, key),
        ErrorModel::AmbiguousParent(key) => has_several_links(m, key),
        ErrorModel::TraversalBoundary(at) => m.links[at].traversal_boundary,
        ErrorModel::DepthLimit(most) => most == limit,
        ErrorModel::ParentCycle(key) => is_linked(m, key),
        _ => false,
    }
}

proof fn lemma_climb_fails_for_a_reason(
    m: GraphModel,
    link: FileLinkId,
    seen: Set<FileKey>,
    room: nat,
    limit: nat,
    target: bool,
)
    requires
        forall|k: FileKey| #[trigger] seen.contains(k) ==> is_linked(m, k),
    ensures
        climb(m, link, seen, room, limit, target) matches Err(e) ==> is_a_reason(m, e, limit),
    decreases room,
{
    if room > 0 && !(m.links[link].traversal_boundary && !target) {
        if let Some(parent) = m.links[link].parent_key {
            if !seen.contains(parent) && only_link(m, parent) is Ok {
                let next = only_link(m, parent)->Ok_0;
                let l = choose|l: FileLinkId| #[trigger] names_object(m, l, parent);
                assert(names_object(m, next, parent));
                lemma_climb_fails_for_a_reason(
                    m,
                    next,
                    seen.insert(parent),
                    (room - 1) as nat,
                    limit,
                    false,
                );
            }
        }
    }
}

/// A link that has no path lacks it for a reason that the error names: a directory above it that
/// no link names, one that several links name, a link above it that must not be crossed, a cycle,
/// or more names than the limit allows.
pub proof fn missing_paths_have_a_reason(m: GraphModel, link: FileLinkId, limit: nat)
    ensures
        match resolve_path(m, link, limit) {
            Ok(path) => m.links.dom().contains(link) && limit > 0,
            Err(ErrorModel::LinkNotFound(missing)) => missing == link && !m.links.dom().contains(
                link,
            ),
            Err(e) => is_a_reason(m, e, limit),
        },
        limit > 0 ==> (resolve_path(m, link, limit) == Err::<Seq<Seq<char>>, ErrorModel>(
            ErrorModel::LinkNotFound(link),
        ) <==> !m.links.dom().contains(link)),
{
    lemma_climb_fails_for_a_reason(m, link, Set::empty(), limit, limit, true);
}

/// The directory that holds a link with a path is named by exactly one link, which may be crossed
/// and has a path itself; a link whose directory is named by none, by several, or by one that must
/// not be crossed has no path.
pub proof fn paths_lead_through_one_open_link(m: GraphModel, link: FileLinkId, limit: nat)
    requires
        m.links.dom().contains(link),
        m.links[link].parent_key is Some,
        resolve_path(m, link, limit) is Ok,
    ensures
        ({
            let parent = m.links[link].parent_key->0;
            exists|above: FileLinkId|
                {
                    &&& #[trigger] names_object(m, above, parent)
                    &&& !m.links[above].traversal_boundary
                    &&& forall|other: FileLinkId| #[trigger]
                        names_object(m, other, parent) ==> other == above
                }
        }),
{
    let parent = m.links[link].parent_key->0;
    let above = only_link(m, parent)->Ok_0;
    let l = choose|l: FileLinkId| #[trigger] names_object(m, l, parent);
    assert(names_object(m, above, parent));
    assert(climb(m, above, Set::empty().insert(parent), (limit - 1) as nat, limit, false) is Ok);
}

/// A link in the root has the path of its own name, however small the limit, and so does a link
/// that must not be crossed: only what lies below it is cut off.
pub proof fn roots_are_their_own_paths(m: GraphModel, link: FileLinkId, limit: nat)
    requires
        m.links.dom().contains(link),
        m.links[link].parent_key is None,
        limit > 0,
    ensures
        resolve_path(m, link, limit) == Ok::<Seq<Seq<char>>, ErrorModel>(
            seq![m.links[link].name],
        ),
{
}

/// A link one below the root has the two names as its path, if its directory can be crossed.
pub proof fn children_of_roots_have_two_names(
    m: GraphModel,
    root: FileLinkId,
    link: FileLinkId,
    limit: nat,
)
    requires
        m.links.dom().contains(link),
        m.links.dom().contains(root),
        m.links[root].parent_key is None,
        m.links[link].parent_key == Some(m.links[root].object_key),
        forall|other: FileLinkId| #[trigger]
            names_object(m, other, m.links[root].object_key) ==> other == root,
        limit > 1,
    ensures
        !m.links[root].traversal_boundary ==> resolve_path(m, link, limit) == Ok::<
            Seq<Seq<char>>,
            ErrorModel,
        >(seq![m.links[root].name, m.links[link].name]),
        m.links[root].traversal_boundary ==> resolve_path(m, link, limit) == Err::<
            Seq<Seq<char>>,
            ErrorModel,
        >(ErrorModel::TraversalBoundary(root)),
{
    let parent = m.links[root].object_key;
    assert(names_object(m, root, parent));
    assert(only_link(m, parent) == Ok::<FileLinkId, ErrorModel>(root)) by {
        let l = choose|l: FileLinkId| #[trigger] names_object(m, l, parent);
        assert(names_object(m, l, parent));
    }
    let seen = Set::<FileKey>::empty().insert(parent);
    assert(!Set::<FileKey>::empty().contains(parent));
    if !m.links[root].traversal_boundary {
        assert(climb(m, root, seen, (limit - 1) as nat, limit, false) == Ok::<
            Seq<Seq<char>>,
            ErrorModel,
        >(seq![m.links[root].name]));
        assert(seq![m.links[root].name].push(m.links[link].name) =~= seq![
            m.links[root].name,
            m.links[link].name,
        ]);
    } else {
        assert(climb(m, root, seen, (limit - 1) as nat, limit, false) == Err::<
            Seq<Seq<char>>,
            ErrorModel,
        >(ErrorModel::TraversalBoundary(root)));
    }
}

proof fn lemma_mutation_keeps_metadata(
    m: GraphModel,
    mutation: MutationModel,
    generation: u64,
    key: FileKey,
)
    requires
        rows_sound(m),
        generation <= column_max(),
        m.objects.dom().contains(key),
    ensures
        apply_mutation(m, mutation, generation) matches Ok((next, n)) ==> {
            &&& next.objects.dom().contains(key)
            &&& !(mutation matches MutationModel::UpsertObject { object } && object.object_key
                == key) ==> next.objects[key].metadata == m.objects[key].metadata
            &&& forall|l: FileLinkId| #[trigger]
                names_object(next, l, key) && !names_object(m, l, key) ==> affects(m, mutation, l)
        },
{
    match mutation {
        MutationModel::UpsertLink { link, traversal_boundary } => {
            let stale = stale_conflicts(m, link);
            lemma_remove_links(m, stale, generation, stale.len());
            lemma_removals_keep_metadata(m, stale, generation, stale.len(), key);
            if let Ok((bare, c)) = remove_links(m, stale, generation, stale.len()) {
                if m.objects.dom().contains(link.object_key) {
                    lemma_place_link(bare, link, traversal_boundary, generation);
                    lemma_enqueue_refresh(bare, link.object_key, generation);
                }
            }
        },
        MutationModel::RemoveLink { file_link_id, object_key } => {
            lemma_remove_link(m, file_link_id, object_key, generation, true);
            if m.links.dom().contains(file_link_id) {
                let unlinked = GraphModel { links: m.links.remove(file_link_id), ..m };
            }
        },
        _ => {},
    }
}

proof fn lemma_removals_keep_metadata(
    m: GraphModel,
    stale: Seq<(FileLinkId, FileKey)>,
    generation: u64,
    n: nat,
    key: FileKey,
)
    requires
        rows_sound(m),
        n <= stale.len(),
        m.objects.dom().contains(key),
    ensures
        remove_links(m, stale, generation, n) matches Ok((next, c)) ==> next.objects.dom().contains(
            key,
        ) && next.objects[key].metadata == m.objects[key].metadata,
    decreases n,
{
    if n > 0 {
        lemma_removals_keep_metadata(m, stale, generation, (n - 1) as nat, key);
        lemma_remove_links(m, stale, generation, (n - 1) as nat);
        if let Ok((before, c)) = remove_links(m, stale, generation, (n - 1) as nat) {
            lemma_remove_link(before, stale[n - 1].0, stale[n - 1].1, generation, false);
        }
    }
}

/// The place of the last observation of an object among the mutations of a batch.
pub open spec fn is_last_observation(
    mutations: Seq<MutationModel>,
    i: int,
    object: FileObjectSnapshot,
) -> bool {
    &&& 0 <= i < mutations.len()
    &&& mutations[i] == MutationModel::UpsertObject { object }
    &&& forall|j: int|
        i < j < mutations.len() ==> !(#[trigger] mutations[j] matches MutationModel::UpsertObject {
            object: other,
        } && other.object_key == object.object_key)
}

proof fn lemma_observation_lasts(
    m: GraphModel,
    mutations: Seq<MutationModel>,
    generation: u64,
    i: int,
    object: FileObjectSnapshot,
    n: nat,
)
    requires
        sound(m),
        generation <= column_max(),
        is_last_observation(mutations, i, object),
        i < n <= mutations.len(),
    ensures
        run_mutations(m, mutations, generation, n) matches Ok(p) ==> {
            &&& p.graph.objects.dom().contains(object.object_key)
            &&& p.graph.objects[object.object_key].metadata == object.metadata
            &&& forall|l: FileLinkId| #[trigger]
                names_object(p.graph, l, object.object_key) ==> p.affected.contains(l)
        },
    decreases n,
{
    let key = object.object_key;
    lemma_run_mutations(m, mutations, generation, (n - 1) as nat);
    if let Ok(before) = run_mutations(m, mutations, generation, (n - 1) as nat) {
        if i == n - 1 {
            observed_objects_are_recorded(before.graph, object, generation);
            if let Ok(p) = run_mutations(m, mutations, generation, n) {
                assert forall|l: FileLinkId| #[trigger] names_object(p.graph, l, key) implies
                    p.affected.contains(l) by {
                    assert(names_object(before.graph, l, key));
                    assert(affects(before.graph, mutations[n - 1], l));
                }
            }
        } else {
            lemma_observation_lasts(m, mutations, generation, i, object, (n - 1) as nat);
            lemma_mutation_keeps_metadata(before.graph, mutations[n - 1], generation, key);
            if let Ok(p) = run_mutations(m, mutations, generation, n) {
                assert forall|l: FileLinkId| #[trigger] names_object(p.graph, l, key) implies
                    p.affected.contains(l) by {
                    if names_object(before.graph, l, key) {
                        assert(before.affected.contains(l));
                    } else {
                        assert(affects(before.graph, mutations[n - 1], l));
                    }
                }
            }
        }
    }
}

/// What a batch leaves of the objects, links and volumes that its mutations lead to.
proof fn lemma_batch_sources(
    m: GraphModel,
    batch: BatchModel,
    mode: ProjectionOutboxMode,
)
    requires
        sound(m),
        lists_touched_links(m, batch),
    ensures
        apply_batch(m, batch, mode) matches Ok((next, summary)) ==> {
            let generation = (generation_of(m, batch.volume_id) + 1) as u64;
            let progress = run_mutations(m, batch.mutations, generation, batch.mutations.len());
            &&& generation <= column_max()
            &&& progress is Ok
            &&& sound(next)
            &&& next.links == progress->Ok_0.graph.links
            &&& next.objects == progress->Ok_0.graph.objects
            &&& next.volumes.dom() =~= progress->Ok_0.graph.volumes.dom()
        },
{
    if let Ok((next, summary)) = apply_batch(m, batch, mode) {
        let generation = (generation_of(m, batch.volume_id) + 1) as u64;
        let p = run_mutations(m, batch.mutations, generation, batch.mutations.len())->Ok_0;
        let links = ascending_links(p.affected);
        lemma_run_mutations(m, batch.mutations, generation, batch.mutations.len());
        lemma_sync_links(p.graph, links, generation, mode, links.len(), p.affected);
        lemma_apply_batch(m, batch, mode, links);
    }
}

/// An edit reaches every document of the object: after a batch that observes an object, each link
/// that names the object is up to date, and the object is recorded as it was last seen.
pub proof fn edits_reach_their_documents(
    m: GraphModel,
    batch: BatchModel,
    mode: ProjectionOutboxMode,
    i: int,
    object: FileObjectSnapshot,
    link: FileLinkId,
)
    requires
        sound(m),
        lists_touched_links(m, batch),
        is_last_observation(batch.mutations, i, object),
    ensures
        apply_batch(m, batch, mode) matches Ok((next, summary)) ==> {
            &&& next.objects[object.object_key].metadata == object.metadata
            &&& next.links.dom().contains(link) && next.links[link].object_key == object.object_key
                ==> settled(next, link)
        },
{
    if let Ok((next, summary)) = apply_batch(m, batch, mode) {
        let generation = (generation_of(m, batch.volume_id) + 1) as u64;
        let n = batch.mutations.len();
        lemma_batch_sources(m, batch, mode);
        lemma_observation_lasts(m, batch.mutations, generation, i, object, n);
        let p = run_mutations(m, batch.mutations, generation, n)->Ok_0;
        let links = ascending_links(p.affected);
        batch_settles_the_links_it_touches(m, batch, mode, links);
        if names_object(next, link, object.object_key) {
            assert(names_object(p.graph, link, object.object_key));
            let touched = |l: FileLinkId| p.affected.contains(l);
            assert(touched(link));
            let at = links.index_of(link);
            assert(links[at] == link);
        }
    }
}

proof fn lemma_placed_link_is_affected(
    m: GraphModel,
    mutations: Seq<MutationModel>,
    generation: u64,
    i: int,
    link: FileLinkId,
    n: nat,
)
    requires
        0 <= i < n <= mutations.len(),
        match mutations[i] {
            MutationModel::UpsertLink { link: seen, .. } => seen.file_link_id == link,
            MutationModel::RemoveLink { file_link_id, .. } => file_link_id == link,
            _ => false,
        },
    ensures
        run_mutations(m, mutations, generation, n) matches Ok(p) ==> p.affected.contains(link),
    decreases n,
{
    if let Ok(before) = run_mutations(m, mutations, generation, (n - 1) as nat) {
        if i < n - 1 {
            lemma_placed_link_is_affected(m, mutations, generation, i, link, (n - 1) as nat);
        } else {
            assert(affects(before.graph, mutations[n - 1], link));
        }
    }
}

/// A batch that places or removes a link leaves its document up to date: a link that is gone has
/// none.
pub proof fn links_reach_their_documents(
    m: GraphModel,
    batch: BatchModel,
    mode: ProjectionOutboxMode,
    i: int,
    link: FileLinkId,
)
    requires
        sound(m),
        lists_touched_links(m, batch),
        0 <= i < batch.mutations.len(),
        match batch.mutations[i] {
            MutationModel::UpsertLink { link: seen, .. } => seen.file_link_id == link,
            MutationModel::RemoveLink { file_link_id, .. } => file_link_id == link,
            _ => false,
        },
    ensures
        apply_batch(m, batch, mode) matches Ok((next, summary)) ==> {
            &&& settled(next, link)
            &&& !next.links.dom().contains(link) ==> !next.documents.dom().contains(
                document_of(link),
            )
        },
{
    if let Ok((next, summary)) = apply_batch(m, batch, mode) {
        let generation = (generation_of(m, batch.volume_id) + 1) as u64;
        let n = batch.mutations.len();
        lemma_batch_sources(m, batch, mode);
        lemma_placed_link_is_affected(m, batch.mutations, generation, i, link, n);
        let p = run_mutations(m, batch.mutations, generation, n)->Ok_0;
        let links = ascending_links(p.affected);
        batch_settles_the_links_it_touches(m, batch, mode, links);
        let touched = |l: FileLinkId| p.affected.contains(l);
        assert(touched(link));
        let at = links.index_of(link);
        assert(links[at] == link);
    }
}

/// A consumer that has taken over the whole outbox holds, for a link that is up to date, exactly
/// what the graph says of the link: it holds a document if and only if the link has a path, and
/// the two differ in nothing but their version, unless the digests of different contents are the
/// same.
pub proof fn consumers_hold_what_the_graph_says(
    m: GraphModel,
    catalog: Map<DocumentId, DocumentModel>,
    link: FileLinkId,
)
    requires
        mirrors(catalog, m),
        settled(m, link),
        m.links.dom().contains(link),
    ensures
        catalog.dom().contains(document_of(link)) <==> build_document(m, link, 0) is Ok,
        build_document(m, link, 0) matches Ok(document) ==> {
            let held = catalog[document_of(link)];
            is_told_apart(held, document) ==> held == (DocumentModel {
                document_version: held.document_version,
                ..document
            })
        },
{
    if let Ok(document) = build_document(m, link, 0) {
        let id = document_of(link);
        let held = catalog[id];
        assert(m.documents.dom().contains(id));
        assert(content_unchanged(m.documents[id], held));
        assert(content_unchanged(m.documents[id], document));
        if is_told_apart(held, document) {
            fingerprints_tell_contents_apart(held, document);
        }
    }
}

/// Consumers learn of every edit: once a consumer that was up to date has taken over the rows of a
/// batch, it holds the size, the times and the other metadata with which the batch last saw the
/// object, under every link of the object that has a path.
pub proof fn consumers_learn_of_every_edit(
    m: GraphModel,
    batch: BatchModel,
    catalog: Map<DocumentId, DocumentModel>,
    i: int,
    object: FileObjectSnapshot,
    link: FileLinkId,
)
    requires
        sound(m),
        lists_touched_links(m, batch),
        mirrors(catalog, m),
        is_last_observation(batch.mutations, i, object),
    ensures
        apply_batch(m, batch, ProjectionOutboxMode::Durable) matches Ok((next, summary)) ==> {
            let after = caught_up(catalog, next.outbox, m.issued, next.issued as nat);
            let id = document_of(link);
            next.links.dom().contains(link) && next.links[link].object_key == object.object_key
                && resolve_path(next, link, catalog_depth()) is Ok ==> {
                &&& after.dom().contains(id)
                &&& is_told_apart(after[id], build_document(next, link, 0)->Ok_0) ==> {
                    &&& after[id].name == next.links[link].name
                    &&& after[id].metadata.kind == object.metadata.kind
                    &&& after[id].metadata.size == object.metadata.size
                    &&& after[id].metadata.created_at_unix_ms == object.metadata.created_at_unix_ms
                    &&& after[id].metadata.modified_at_unix_ms
                        == object.metadata.modified_at_unix_ms
                    &&& after[id].metadata.hidden == object.metadata.hidden
                }
            }
        },
{
    if let Ok((next, summary)) = apply_batch(m, batch, ProjectionOutboxMode::Durable) {
        let after = caught_up(catalog, next.outbox, m.issued, next.issued as nat);
        lemma_batch_sources(m, batch, ProjectionOutboxMode::Durable);
        edits_reach_their_documents(m, batch, ProjectionOutboxMode::Durable, i, object, link);
        consumers_follow_a_batch(m, batch, catalog);
        if next.links.dom().contains(link) && next.links[link].object_key == object.object_key
            && resolve_path(next, link, catalog_depth()) is Ok {
            links_with_a_path_have_a_document(next, link, 0);
            assert(next.objects.dom().contains(object.object_key));
            documents_say_what_the_graph_says(next, link, 0);
            consumers_hold_what_the_graph_says(next, after, link);
        }
    }
}

/// Volumes that are not online decide the availability of everything on them; an online one leaves
/// it to the object.
pub proof fn volumes_decide_availability(own: Availability, other: Availability, state: VolumeState)
    ensures
        state == VolumeState::Online ==> effective_availability(own, state) == own,
        state != VolumeState::Online ==> effective_availability(own, state)
            == effective_availability(other, state),
        effective_availability(own, VolumeState::Offline) == Availability::Offline,
        effective_availability(own, VolumeState::NeedsReconciliation) == Availability::Unknown,
{
}

/// An empty graph knows nothing, has told nothing and is sound.
pub proof fn empty_graphs_are_sound()
    ensures
        crate::graph::soundness::sound(empty_graph()),
        empty_graph().issued == 0,
        forall|v: VolumeId| !#[trigger] empty_graph().volumes.dom().contains(v),
        forall|k: FileKey| !#[trigger] empty_graph().objects.dom().contains(k),
        forall|l: FileLinkId| !#[trigger] empty_graph().links.dom().contains(l),
{
}

} // verus!
