//! Laws of the filesystem graph that relate its operations.

use vstd::prelude::*;

use crate::catalog::{DocumentModel, IndexMutationModel};
use crate::graph::domain::{BatchModel, MutationModel, VolumeState};
use crate::graph::error::ErrorModel;
use crate::graph::fingerprint::document_fingerprint;
use crate::graph::model::{
    apply_batch, apply_mutation, ascending_links, build_document, catalog_depth, climb, column_max, content_unchanged, document_of,
    effective_availability, enqueue_if_moved, extension_of, generation_of, is_last_dot, has_no_path, is_linked, names_object, occupies, only_link, place_taken, remove_link,
    remove_links, resolve_path, run_mutations, stale_conflicts, sync_links, sync_projection, with_tombstone,
    write_link, DocumentRowModel, GraphModel, OutboxModel, PayloadModel, ProjectionOutboxMode,
};
use crate::graph::scan_model::{
    finalize_links, finalize_objects, lemma_sweep_links, stale_links, stale_objects, sweep_links,
    sweep_objects,
};
use crate::graph::soundness::{
    lemma_apply_mutation, lemma_place_link, lemma_remove_link, lemma_remove_links,
    lemma_run_mutations, lemma_sync_links, lemma_sync_projection, rows_sound, sound,
};
use crate::graph::upkeep_model::{
    acknowledge, compact_documents, compacted, desired_document, document_links_after,
    is_least_acknowledged, lemma_compact, lemma_refresh_paths_step, links_after, outbox_through, refresh_paths_step,
    refresh_volume_step, without_outbox,
};
use crate::ids::{DocumentId, FileId128, FileKey, FileLinkId, JobId, MutationSeq, VolumeId};
use crate::order::{is_listing, is_page};
use crate::selection::pair_rank;
use crate::table::key_rank;
use crate::text::{joined, lowercase_of};

verus! {

/// Hard links keep an object alive: after one of its links is removed, the object is tombstoned
/// exactly when no other link names it.
pub proof fn object_lives_until_its_last_link_goes(
    m: GraphModel,
    link: FileLinkId,
    generation: u64,
    refresh: bool,
)
    requires
        sound(m),
        m.links.dom().contains(link),
    ensures
        remove_link(m, link, m.links[link].object_key, generation, refresh) matches Ok((next, n))
            ==> {
            let key = m.links[link].object_key;
            &&& next.objects[key].tombstoned <==> !is_linked(next, key)
            &&& is_linked(next, key) <==> exists|other: FileLinkId|
                other != link && #[trigger] names_object(m, other, key)
        },
{
    let key = m.links[link].object_key;
    if let Ok((next, n)) = remove_link(m, link, key, generation, refresh) {
        lemma_remove_link(m, link, key, generation, refresh);
        let unlinked = GraphModel { links: m.links.remove(link), ..m };
        assert(next.links == unlinked.links);
        assert(is_linked(next, key) == is_linked(unlinked, key)) by {
            if is_linked(next, key) {
                let l = choose|l: FileLinkId| #[trigger] names_object(next, l, key);
                assert(names_object(unlinked, l, key));
            }
            if is_linked(unlinked, key) {
                let l = choose|l: FileLinkId| #[trigger] names_object(unlinked, l, key);
                assert(names_object(next, l, key));
            }
        }
        if is_linked(next, key) {
            let l = choose|l: FileLinkId| #[trigger] names_object(next, l, key);
            assert(l != link && names_object(m, l, key));
        }
        if exists|other: FileLinkId| other != link && #[trigger] names_object(m, other, key) {
            let l = choose|other: FileLinkId|
                other != link && #[trigger] names_object(m, other, key);
            assert(names_object(next, l, key));
        }
        let settled = if is_linked(unlinked, key) {
            unlinked
        } else {
            with_tombstone(unlinked, key, true)
        };
        assert(next.objects == settled.objects);
        assert(m.links.dom().contains(link));
        assert(!m.objects[key].tombstoned);
    }
}

proof fn lemma_climb_relaxed(
    m: GraphModel,
    link: FileLinkId,
    seen: Set<FileKey>,
    fewer: Set<FileKey>,
    room: nat,
    more: nat,
    limit: nat,
    other_limit: nat,
    target: bool,
    other_target: bool,
)
    requires
        fewer.subset_of(seen),
        room <= more,
        target ==> other_target,
        climb(m, link, seen, room, limit, target) is Ok,
    ensures
        climb(m, link, fewer, more, other_limit, other_target) == climb(
            m,
            link,
            seen,
            room,
            limit,
            target,
        ),
    decreases room,
{
    if let Some(parent) = m.links[link].parent_key {
        let next = only_link(m, parent)->Ok_0;
        lemma_climb_relaxed(
            m,
            next,
            seen.insert(parent),
            fewer.insert(parent),
            (room - 1) as nat,
            (more - 1) as nat,
            limit,
            other_limit,
            false,
            false,
        );
    }
}

/// The path of a link ends in its name, has at most as many names as the limit allows, and
/// extends the path of the one link of its parent; a root link is its own path.
pub proof fn path_extends_the_path_of_its_parent(m: GraphModel, link: FileLinkId, limit: nat)
    requires
        resolve_path(m, link, limit) is Ok,
    ensures
        ({
            let path = resolve_path(m, link, limit)->Ok_0;
            &&& 1 <= path.len() <= limit
            &&& path.last() == m.links[link].name
            &&& match m.links[link].parent_key {
                None => path.len() == 1,
                Some(parent) => {
                    &&& only_link(m, parent) is Ok
                    &&& resolve_path(m, only_link(m, parent)->Ok_0, limit) == Ok::<
                        Seq<Seq<char>>,
                        ErrorModel,
                    >(path.drop_last())
                },
            }
        }),
{
    lemma_path_length(m, link, Set::empty(), limit, limit, true);
    let path = resolve_path(m, link, limit)->Ok_0;
    if let Some(parent) = m.links[link].parent_key {
        let above = only_link(m, parent)->Ok_0;
        lemma_only_link(m, parent);
        let seen = Set::<FileKey>::empty().insert(parent);
        lemma_climb_relaxed(
            m,
            above,
            seen,
            Set::empty(),
            (limit - 1) as nat,
            limit,
            limit,
            limit,
            false,
            true,
        );
        let upper = climb(m, above, seen, (limit - 1) as nat, limit, false)->Ok_0;
        assert(path =~= upper.push(m.links[link].name));
        assert(path.drop_last() =~= upper);
    }
}

proof fn lemma_only_link(m: GraphModel, key: FileKey)
    requires
        only_link(m, key) is Ok,
    ensures
        m.links.dom().contains(only_link(m, key)->Ok_0),
{
    let l = choose|l: FileLinkId| #[trigger] names_object(m, l, key);
    assert(names_object(m, l, key));
}

proof fn lemma_path_length(
    m: GraphModel,
    link: FileLinkId,
    seen: Set<FileKey>,
    room: nat,
    limit: nat,
    target: bool,
)
    requires
        climb(m, link, seen, room, limit, target) is Ok,
    ensures
        1 <= climb(m, link, seen, room, limit, target)->Ok_0.len() <= room,
    decreases room,
{
    if let Some(parent) = m.links[link].parent_key {
        lemma_path_length(
            m,
            only_link(m, parent)->Ok_0,
            seen.insert(parent),
            (room - 1) as nat,
            limit,
            false,
        );
    }
}

/// A path that was found within a limit is found, unchanged, within every larger one.
pub proof fn path_does_not_depend_on_a_larger_limit(
    m: GraphModel,
    link: FileLinkId,
    limit: nat,
    larger: nat,
)
    requires
        resolve_path(m, link, limit) is Ok,
        limit <= larger,
    ensures
        resolve_path(m, link, larger) == resolve_path(m, link, limit),
{
    lemma_climb_relaxed(
        m,
        link,
        Set::empty(),
        Set::empty(),
        limit,
        larger,
        limit,
        larger,
        true,
        true,
    );
}

/// Two graphs say the same of every link.
spec fn same_sources(m: GraphModel, n: GraphModel) -> bool {
    &&& n.links == m.links
    &&& n.objects == m.objects
    &&& forall|v: VolumeId| #[trigger]
        n.volumes.dom().contains(v) == m.volumes.dom().contains(v) && n.volumes[v].state
            == m.volumes[v].state
}

proof fn lemma_build_document_frame(m: GraphModel, n: GraphModel, link: FileLinkId, v: u64, w: u64)
    requires
        same_sources(m, n),
    ensures
        match build_document(m, link, v) {
            Err(e) => build_document(n, link, w) == Err::<DocumentModel, ErrorModel>(e),
            Ok(document) => build_document(n, link, w) == Ok::<DocumentModel, ErrorModel>(
                DocumentModel { document_version: crate::ids::DocumentVersion(w), ..document },
            ),
        },
{
    lemma_climb_frame(
        m,
        n,
        link,
        Set::empty(),
        crate::graph::model::catalog_depth(),
        crate::graph::model::catalog_depth(),
        true,
    );
}

proof fn lemma_only_link_frame(m: GraphModel, n: GraphModel, key: FileKey)
    requires
        n.links == m.links,
    ensures
        only_link(n, key) == only_link(m, key),
{
    assert forall|l: FileLinkId| names_object(m, l, key) == names_object(n, l, key) by {
    }
    if is_linked(m, key) {
        let l = choose|l: FileLinkId| #[trigger] names_object(m, l, key);
        assert(names_object(n, l, key));
    }
    if is_linked(n, key) {
        let l = choose|l: FileLinkId| #[trigger] names_object(n, l, key);
        assert(names_object(m, l, key));
    }
    if exists|a: FileLinkId, b: FileLinkId| #[trigger]
        names_object(m, a, key) && #[trigger] names_object(m, b, key) && a != b {
        let (a, b) = choose|a: FileLinkId, b: FileLinkId| #[trigger]
            names_object(m, a, key) && #[trigger] names_object(m, b, key) && a != b;
        assert(names_object(n, a, key) && names_object(n, b, key));
    } else if exists|a: FileLinkId, b: FileLinkId| #[trigger]
        names_object(n, a, key) && #[trigger] names_object(n, b, key) && a != b {
        let (a, b) = choose|a: FileLinkId, b: FileLinkId| #[trigger]
            names_object(n, a, key) && #[trigger] names_object(n, b, key) && a != b;
        assert(names_object(m, a, key) && names_object(m, b, key));
    } else if is_linked(m, key) {
        let a = choose|l: FileLinkId| #[trigger] names_object(m, l, key);
        let b = choose|l: FileLinkId| #[trigger] names_object(n, l, key);
        assert(names_object(m, a, key) && names_object(m, b, key));
    }
}

proof fn lemma_climb_frame(
    m: GraphModel,
    n: GraphModel,
    link: FileLinkId,
    seen: Set<FileKey>,
    room: nat,
    limit: nat,
    target: bool,
)
    requires
        n.links == m.links,
    ensures
        climb(n, link, seen, room, limit, target) == climb(m, link, seen, room, limit, target),
    decreases room,
{
    if room > 0 {
        if let Some(parent) = m.links[link].parent_key {
            lemma_only_link_frame(m, n, parent);
            if only_link(m, parent) is Ok {
                lemma_climb_frame(
                    m,
                    n,
                    only_link(m, parent)->Ok_0,
                    seen.insert(parent),
                    (room - 1) as nat,
                    limit,
                    false,
                );
            }
        }
    }
}

/// Once the document of a link is up to date, bringing it up to date again changes nothing and
/// appends nothing, whatever the version.
pub proof fn unchanged_document_is_suppressed(
    m: GraphModel,
    link: FileLinkId,
    version: u64,
    mode: ProjectionOutboxMode,
    later: u64,
    later_mode: ProjectionOutboxMode,
)
    requires
        rows_sound(m),
        version <= column_max(),
    ensures
        sync_projection(m, link, version, mode) matches Ok((next, n)) ==> sync_projection(
            next,
            link,
            later,
            later_mode,
        ) == Ok::<(GraphModel, nat), ErrorModel>((next, 0)),
{
    if let Ok((next, n)) = sync_projection(m, link, version, mode) {
        lemma_sync_projection(m, link, version, mode, Set::full());
        lemma_build_document_frame(m, next, link, version, later);
        let id = document_of(link);
        if m.links.dom().contains(link) && build_document(m, link, version) is Ok {
            let document = build_document(m, link, version)->Ok_0;
            let again = build_document(next, link, later)->Ok_0;
            assert(next.documents.dom().contains(id));
            assert(content_unchanged(next.documents[id], again)) by {
                assert(document_fingerprint(again) == document_fingerprint(document));
            }
        } else {
            assert(!next.documents.dom().contains(id));
        }
    }
}

/// The outbox only grows at its end: a step keeps every row and numbers new ones onwards from
/// the last sequence, so no sequence is issued twice.
pub proof fn outbox_is_append_only(
    m: GraphModel,
    links: Seq<FileLinkId>,
    version: u64,
    mode: ProjectionOutboxMode,
    n: nat,
)
    requires
        rows_sound(m),
        version <= column_max(),
        n <= links.len(),
    ensures
        sync_links(m, links, version, mode, n) matches Ok((next, count)) ==> {
            &&& next.issued == m.issued + count
            &&& forall|s: MutationSeq| #[trigger]
                m.outbox.dom().contains(s) ==> next.outbox.dom().contains(s) && next.outbox[s]
                    == m.outbox[s]
            &&& forall|s: MutationSeq| #[trigger]
                next.outbox.dom().contains(s) && !m.outbox.dom().contains(s) ==> m.issued < s.0
                    <= next.issued
        },
    decreases n,
{
    lemma_sync_links(m, links, version, mode, n, Set::full());
    if n > 0 {
        outbox_is_append_only(m, links, version, mode, (n - 1) as nat);
        lemma_sync_links(m, links, version, mode, (n - 1) as nat, Set::full());
        if let Ok((before, c)) = sync_links(m, links, version, mode, (n - 1) as nat) {
            let link = links[n - 1];
            lemma_sync_projection(before, link, version, mode, Set::full());
            if let Ok((next, c)) = sync_links(m, links, version, mode, n) {
                assert forall|s: MutationSeq| #[trigger]
                    before.outbox.dom().contains(s) implies next.outbox.dom().contains(s)
                    && next.outbox[s] == before.outbox[s] by {
                    assert(s.0 <= before.issued);
                }
                assert forall|s: MutationSeq| #[trigger]
                    m.outbox.dom().contains(s) implies next.outbox.dom().contains(s)
                    && next.outbox[s] == m.outbox[s] by {
                    assert(before.outbox.dom().contains(s));
                }
            }
        }
    }
}

/// Mutations are idempotent: applying one again right away leads to the same graph.
pub proof fn mutation_is_idempotent(m: GraphModel, mutation: MutationModel, generation: u64)
    requires
        sound(m),
        generation <= column_max(),
    ensures
        apply_mutation(m, mutation, generation) matches Ok((next, n)) ==> (apply_mutation(
            next,
            mutation,
            generation,
        ) matches Ok((again, k)) && again == next),
{
    if let Ok((next, n)) = apply_mutation(m, mutation, generation) {
        lemma_apply_mutation(m, mutation, generation);
        match mutation {
            MutationModel::UpsertVolume { descriptor } => {
                let again = crate::graph::model::upsert_volume(next, descriptor);
                assert(again.volumes =~= next.volumes);
            },
            MutationModel::SetVolumeState { volume_id, state } => {
                let again = apply_mutation(next, mutation, generation)->Ok_0.0;
                assert(again.volumes =~= next.volumes);
                assert(again.volume_jobs =~= next.volume_jobs);
            },
            MutationModel::UpsertObject { object } => {
                let again = apply_mutation(next, mutation, generation)->Ok_0.0;
                assert(again.objects =~= next.objects);
            },
            MutationModel::UpsertLink { link, traversal_boundary } => {
                let stale = stale_conflicts(m, link);
                lemma_remove_links(m, stale, generation, stale.len());
                let cleared = remove_links(m, stale, generation, stale.len())->Ok_0.0;
                lemma_place_link(cleared, link, traversal_boundary, generation);
                let id = link.file_link_id;
                assert(next.links.dom().contains(id));
                assert(next.links[id].object_key == link.object_key);
                assert forall|other: FileLinkId| !#[trigger] occupies(next, other, link) by {
                    if occupies(next, other, link) {
                        assert(crate::graph::soundness::collide(
                            next.links[other],
                            next.links[id],
                        ));
                    }
                }
                assert(stale_conflicts(next, link) =~= Seq::empty());
                assert(remove_links(next, stale_conflicts(next, link), generation, 0) == Ok::<
                    (GraphModel, nat),
                    ErrorModel,
                >((next, 0)));
                assert(enqueue_if_moved(next, link, generation) == Ok::<
                    (GraphModel, nat),
                    ErrorModel,
                >((next, 0)));
                assert(!place_taken(next, link));
                let again = write_link(next, link, traversal_boundary, generation)->Ok_0;
                assert(again.links =~= next.links);
                assert(again.objects =~= next.objects);
            },
            MutationModel::RemoveLink { file_link_id, object_key } => {
                lemma_remove_link(m, file_link_id, object_key, generation, true);
                assert(!next.links.dom().contains(file_link_id));
            },
            MutationModel::TombstoneObject { object_key } => {
                assert(!is_linked(next, object_key)) by {
                    if is_linked(next, object_key) {
                        let l = choose|l: FileLinkId| #[trigger] names_object(next, l, object_key);
                        assert(names_object(m, l, object_key));
                    }
                }
                let again = with_tombstone(next, object_key, true);
                assert(again.objects =~= next.objects);
            },
            MutationModel::RequireReconciliation { volume_id, reason } => {
                let again = apply_mutation(next, mutation, generation)->Ok_0.0;
                assert(again.volumes =~= next.volumes);
                assert(again.volume_jobs =~= next.volume_jobs);
            },
        }
    }
}

/// A consumer never moves back and never gets ahead of the outbox.
pub proof fn acknowledgement_is_monotonic_and_bounded(
    m: GraphModel,
    consumer: Seq<char>,
    last_sequence: u64,
    index_generation: u64,
)
    requires
        sound(m),
    ensures
        acknowledge(m, consumer, last_sequence, index_generation) matches Ok(next) ==> {
            &&& next.consumers[consumer].last_sequence <= next.issued
            &&& m.consumers.dom().contains(consumer) ==> m.consumers[consumer].last_sequence
                <= next.consumers[consumer].last_sequence
            &&& forall|other: Seq<char>|
                other != consumer && #[trigger] m.consumers.dom().contains(other)
                    ==> next.consumers.dom().contains(other) && next.consumers[other]
                    == m.consumers[other]
        },
{
}

/// Maintenance never discards a row that some consumer still has to take over.
pub proof fn pruning_respects_the_slowest_consumer(
    m: GraphModel,
    least: u64,
    page: Seq<MutationSeq>,
    limit: nat,
    consumer: Seq<char>,
    s: MutationSeq,
)
    requires
        is_least_acknowledged(m, least),
        is_page(page, outbox_through(m, least), key_rank::<MutationSeq>(), limit),
        m.consumers.dom().contains(consumer),
        m.consumers[consumer].last_sequence < s.0,
        m.outbox.dom().contains(s),
    ensures
        without_outbox(m, page.to_set()).outbox.dom().contains(s),
        without_outbox(m, page.to_set()).outbox[s] == m.outbox[s],
        without_outbox(m, page.to_set()).issued == m.issued,
        without_outbox(m, page.to_set()).documents == m.documents,
{
    if page.contains(s) {
        let i = page.index_of(s);
        assert(outbox_through(m, least)(page[i]));
    }
}

proof fn lemma_swept_links_are_gone(
    m: GraphModel,
    page: Seq<(u64, u128)>,
    generation: u64,
    n: nat,
)
    requires
        sound(m),
        generation <= column_max(),
        n <= page.len(),
    ensures
        sweep_links(m, page, generation, n) matches Ok(next) ==> {
            &&& forall|l: FileLinkId| #[trigger]
                next.links.dom().contains(l) ==> m.links.dom().contains(l) && next.links[l]
                    == m.links[l]
            &&& forall|i: int|
                0 <= i < n ==> !next.links.dom().contains(
                    FileLinkId { value: (#[trigger] page[i]).1 },
                )
        },
    decreases n,
{
    if n > 0 {
        lemma_swept_links_are_gone(m, page, generation, (n - 1) as nat);
        lemma_sweep_links(m, page, generation, (n - 1) as nat);
        let l = FileLinkId { value: page[n - 1].1 };
        if let Ok(before) = sweep_links(m, page, generation, (n - 1) as nat) {
            let expected = m.links[l].object_key;
            lemma_remove_link(before, l, expected, generation, false);
            if let Ok((removed, c)) = remove_link(before, l, expected, generation, false) {
                lemma_sync_projection(
                    removed,
                    l,
                    generation,
                    ProjectionOutboxMode::Durable,
                    Set::full(),
                );
            }
        }
    }
}

/// The link sweep hands over to the object sweep only when no link older than the scan is left on
/// the volume.
pub proof fn link_sweep_ends_without_stale_links(
    m: GraphModel,
    volume: VolumeId,
    generation: u64,
    cutoff: u64,
    page: Seq<(u64, u128)>,
    limit: nat,
)
    requires
        sound(m),
        generation <= column_max(),
        is_page(page, stale_links(m, volume, cutoff), pair_rank(), limit),
        page.len() < limit,
    ensures
        finalize_links(m, volume, generation, page, limit) matches Ok((next, summary)) ==> forall|
            p: (u64, u128),
        |
            !#[trigger] stale_links(next, volume, cutoff)(p),
{
    lemma_swept_links_are_gone(m, page, generation, page.len());
    if let Ok((next, summary)) = finalize_links(m, volume, generation, page, limit) {
        let eligible = stale_links(m, volume, cutoff);
        assert forall|p: (u64, u128)| !#[trigger] stale_links(next, volume, cutoff)(p) by {
            if stale_links(next, volume, cutoff)(p) {
                assert(next.links.dom().contains(FileLinkId { value: p.1 }));
                assert(eligible(p));
                assert(page.contains(p));
                let i = page.index_of(p);
                assert(page[i] == p);
            }
        }
    }
}

proof fn lemma_swept_objects_are_gone(
    m: GraphModel,
    volume: VolumeId,
    page: Seq<(u64, u128)>,
    n: nat,
)
    requires
        n <= page.len(),
    ensures
        ({
            let next = sweep_objects(m, volume, page, n);
            &&& next == (GraphModel { objects: next.objects, ..m })
            &&& forall|i: int|
                0 <= i < n ==> next.objects[FileKey {
                    volume_id: volume,
                    file_id: FileId128 { value: (#[trigger] page[i]).1 },
                }].tombstoned
            &&& forall|k: FileKey| #[trigger]
                next.objects.dom().contains(k) && !next.objects[k].tombstoned
                    ==> m.objects.dom().contains(k) && next.objects[k] == m.objects[k]
        }),
    decreases n,
{
    if n > 0 {
        lemma_swept_objects_are_gone(m, volume, page, (n - 1) as nat);
    }
}

/// A scan completes only when no live, unlinked object older than the scan is left on the volume;
/// the staged checkpoint is then current, the volume is online and the session is closed.
pub proof fn scan_completes_without_stale_objects(
    m: GraphModel,
    volume: VolumeId,
    generation: u64,
    page: Seq<(u64, u128)>,
    limit: nat,
    cutoff: u64,
)
    requires
        sound(m),
        is_page(page, stale_objects(m, volume, cutoff), pair_rank(), limit),
        page.len() < limit,
        m.volumes.dom().contains(volume),
    ensures
        ({
            let (next, summary) = finalize_objects(m, volume, generation, page, limit);
            &&& summary.completed
            &&& forall|p: (u64, u128)| !#[trigger] stale_objects(next, volume, cutoff)(p)
            &&& next.checkpoints[volume] == m.sessions[volume].staged->0
            &&& next.volumes[volume].state == VolumeState::Online
            &&& next.volumes[volume].reason is None
            &&& !next.sessions.dom().contains(volume)
        }),
{
    let (next, summary) = finalize_objects(m, volume, generation, page, limit);
    let swept = sweep_objects(m, volume, page, page.len());
    lemma_swept_objects_are_gone(m, volume, page, page.len());
    let eligible = stale_objects(m, volume, cutoff);
    assert forall|p: (u64, u128)| !#[trigger] stale_objects(next, volume, cutoff)(p) by {
        if stale_objects(next, volume, cutoff)(p) {
            let k = FileKey { volume_id: volume, file_id: FileId128 { value: p.1 } };
            assert(swept.objects.dom().contains(k));
            assert(swept.objects[k] == m.objects[k]);
            assert(!is_linked(m, k)) by {
                if is_linked(m, k) {
                    let l = choose|l: FileLinkId| #[trigger] names_object(m, l, k);
                    assert(names_object(next, l, k));
                }
            }
            assert(eligible(p));
            assert(page.contains(p));
            let i = page.index_of(p);
            assert(page[i] == p);
        }
    }
}

/// What a consumer holds after it takes over one change.
pub open spec fn taken_over(
    catalog: Map<DocumentId, DocumentModel>,
    mutation: IndexMutationModel,
) -> Map<DocumentId, DocumentModel> {
    match mutation {
        IndexMutationModel::Upsert { document } => catalog.insert(
            document.identity.document_id,
            document,
        ),
        IndexMutationModel::Delete { document_id, .. } => catalog.remove(document_id),
    }
}

/// What a consumer holds after it takes over the changes after one sequence up to another.
pub open spec fn caught_up(
    catalog: Map<DocumentId, DocumentModel>,
    outbox: Map<MutationSeq, OutboxModel>,
    from: u64,
    to: nat,
) -> Map<DocumentId, DocumentModel>
    decreases to,
{
    if to <= from {
        catalog
    } else {
        taken_over(
            caught_up(catalog, outbox, from, (to - 1) as nat),
            outbox[MutationSeq(to as u64)].mutation,
        )
    }
}

/// A consumer holds, for every desired document and no other, what the document says.
pub open spec fn mirrors(catalog: Map<DocumentId, DocumentModel>, m: GraphModel) -> bool {
    &&& catalog.dom() == m.documents.dom()
    &&& forall|d: DocumentId| #[trigger]
        m.documents.dom().contains(d) ==> content_unchanged(m.documents[d], catalog[d])
}

proof fn lemma_caught_up_frame(
    catalog: Map<DocumentId, DocumentModel>,
    outbox: Map<MutationSeq, OutboxModel>,
    later: Map<MutationSeq, OutboxModel>,
    from: u64,
    to: nat,
)
    requires
        to <= u64::MAX,
        forall|s: MutationSeq| #![trigger later[s]] s.0 <= to ==> later[s] == outbox[s],
    ensures
        caught_up(catalog, later, from, to) == caught_up(catalog, outbox, from, to),
    decreases to,
{
    if to > from {
        lemma_caught_up_frame(catalog, outbox, later, from, (to - 1) as nat);
        assert(later[MutationSeq(to as u64)] == outbox[MutationSeq(to as u64)]);
    }
}

proof fn lemma_step_is_told(
    m: GraphModel,
    link: FileLinkId,
    version: u64,
    catalog: Map<DocumentId, DocumentModel>,
)
    requires
        mirrors(catalog, m),
    ensures
        sync_projection(m, link, version, ProjectionOutboxMode::Durable) matches Ok((next, n)) ==> {
            &&& next.issued == m.issued + n
            &&& forall|s: MutationSeq| #![trigger next.outbox[s]]
                s.0 <= m.issued ==> next.outbox[s] == m.outbox[s]
            &&& n == 0 ==> mirrors(catalog, next)
            &&& n == 1 ==> mirrors(
                taken_over(catalog, next.outbox[MutationSeq(next.issued)].mutation),
                next,
            )
            &&& n <= 1
        },
{
    let id = document_of(link);
    if let Ok((next, n)) = sync_projection(m, link, version, ProjectionOutboxMode::Durable) {
        if n == 1 {
            let after = taken_over(catalog, next.outbox[MutationSeq(next.issued)].mutation);
            assert(after.dom() =~= next.documents.dom());
        }
    }
}

proof fn lemma_steps_are_told(
    m: GraphModel,
    links: Seq<FileLinkId>,
    version: u64,
    n: nat,
    catalog: Map<DocumentId, DocumentModel>,
)
    requires
        mirrors(catalog, m),
        n <= links.len(),
    ensures
        sync_links(m, links, version, ProjectionOutboxMode::Durable, n) matches Ok((next, count))
            ==> {
            &&& m.issued <= next.issued
            &&& forall|s: MutationSeq| #![trigger next.outbox[s]]
                s.0 <= m.issued ==> next.outbox[s] == m.outbox[s]
            &&& mirrors(caught_up(catalog, next.outbox, m.issued, next.issued as nat), next)
        },
    decreases n,
{
    if n > 0 {
        lemma_steps_are_told(m, links, version, (n - 1) as nat, catalog);
        if let Ok((before, count)) = sync_links(
            m,
            links,
            version,
            ProjectionOutboxMode::Durable,
            (n - 1) as nat,
        ) {
            let held = caught_up(catalog, before.outbox, m.issued, before.issued as nat);
            lemma_step_is_told(before, links[n - 1], version, held);
            if let Ok((next, told)) = sync_projection(
                before,
                links[n - 1],
                version,
                ProjectionOutboxMode::Durable,
            ) {
                lemma_caught_up_frame(
                    catalog,
                    before.outbox,
                    next.outbox,
                    m.issued,
                    before.issued as nat,
                );
            }
        }
    }
}

proof fn lemma_sweep_is_told(
    m: GraphModel,
    page: Seq<(u64, u128)>,
    generation: u64,
    n: nat,
    catalog: Map<DocumentId, DocumentModel>,
)
    requires
        sound(m),
        generation <= column_max(),
        mirrors(catalog, m),
        n <= page.len(),
    ensures
        sweep_links(m, page, generation, n) matches Ok(next) ==> {
            &&& m.issued <= next.issued
            &&& mirrors(caught_up(catalog, next.outbox, m.issued, next.issued as nat), next)
        },
    decreases n,
{
    if n > 0 {
        lemma_sweep_is_told(m, page, generation, (n - 1) as nat, catalog);
        lemma_sweep_links(m, page, generation, (n - 1) as nat);
        let l = FileLinkId { value: page[n - 1].1 };
        if let Ok(before) = sweep_links(m, page, generation, (n - 1) as nat) {
            let expected = m.links[l].object_key;
            lemma_remove_link(before, l, expected, generation, false);
            if let Ok((removed, c)) = remove_link(before, l, expected, generation, false) {
                let held = caught_up(catalog, before.outbox, m.issued, before.issued as nat);
                assert(mirrors(held, removed));
                lemma_step_is_told(removed, l, generation, held);
                if let Ok((next, told)) = sync_projection(
                    removed,
                    l,
                    generation,
                    ProjectionOutboxMode::Durable,
                ) {
                    lemma_caught_up_frame(
                        catalog,
                        before.outbox,
                        next.outbox,
                        m.issued,
                        before.issued as nat,
                    );
                }
            }
        }
    }
}

/// A consumer that takes over the outbox follows a batch: if it mirrored the desired documents
/// before the batch, it mirrors them again once it has taken over the rows that the batch
/// appended.
pub proof fn consumers_follow_a_batch(
    m: GraphModel,
    batch: BatchModel,
    catalog: Map<DocumentId, DocumentModel>,
)
    requires
        sound(m),
        mirrors(catalog, m),
    ensures
        apply_batch(m, batch, ProjectionOutboxMode::Durable) matches Ok((next, summary))
            ==> mirrors(caught_up(catalog, next.outbox, m.issued, next.issued as nat), next),
{
    if let Ok((next, summary)) = apply_batch(m, batch, ProjectionOutboxMode::Durable) {
        let generation = (generation_of(m, batch.volume_id) + 1) as u64;
        let p = run_mutations(m, batch.mutations, generation, batch.mutations.len())->Ok_0;
        let links = ascending_links(p.affected);
        lemma_run_mutations(m, batch.mutations, generation, batch.mutations.len());
        assert(mirrors(catalog, p.graph));
        lemma_steps_are_told(p.graph, links, generation, links.len(), catalog);
    }
}

/// A consumer that takes over the outbox follows the bounded refreshes of paths and volumes.
pub proof fn consumers_follow_a_refresh(
    m: GraphModel,
    job: JobId,
    volume: VolumeId,
    page: Seq<FileLinkId>,
    limit: nat,
    catalog: Map<DocumentId, DocumentModel>,
)
    requires
        mirrors(catalog, m),
    ensures
        refresh_paths_step(m, job, page, limit) matches Ok((next, summary)) ==> mirrors(
            caught_up(catalog, next.outbox, m.issued, next.issued as nat),
            next,
        ),
        refresh_volume_step(m, volume, page, limit) matches Ok((next, summary)) ==> mirrors(
            caught_up(catalog, next.outbox, m.issued, next.issued as nat),
            next,
        ),
{
    let paths = m.volumes[m.path_jobs[job].root_object.volume_id].generation;
    lemma_steps_are_told(m, page, paths, page.len(), catalog);
    lemma_steps_are_told(m, page, m.volumes[volume].generation, page.len(), catalog);
}

/// A consumer that takes over the outbox follows the sweep of stale links.
pub proof fn consumers_follow_a_sweep(
    m: GraphModel,
    volume: VolumeId,
    generation: u64,
    page: Seq<(u64, u128)>,
    limit: nat,
    catalog: Map<DocumentId, DocumentModel>,
)
    requires
        sound(m),
        generation <= column_max(),
        mirrors(catalog, m),
    ensures
        finalize_links(m, volume, generation, page, limit) matches Ok((next, summary)) ==> mirrors(
            caught_up(catalog, next.outbox, m.issued, next.issued as nat),
            next,
        ),
{
    lemma_sweep_is_told(m, page, generation, page.len(), catalog);
}

/// The document of a link says what the graph says of the link: bringing it up to date would
/// change nothing.
pub open spec fn settled(m: GraphModel, link: FileLinkId) -> bool {
    let id = document_of(link);
    if !m.links.dom().contains(link) {
        !m.documents.dom().contains(id)
    } else {
        match build_document(m, link, 0) {
            Ok(document) => m.documents.dom().contains(id) && content_unchanged(
                m.documents[id],
                document,
            ),
            Err(e) => has_no_path(e) && !m.documents.dom().contains(id),
        }
    }
}

proof fn lemma_sync_settles(
    m: GraphModel,
    link: FileLinkId,
    version: u64,
    mode: ProjectionOutboxMode,
)
    requires
        rows_sound(m),
        version <= column_max(),
    ensures
        sync_projection(m, link, version, mode) matches Ok((next, n)) ==> {
            &&& settled(next, link)
            &&& forall|l: FileLinkId| #[trigger] settled(m, l) ==> settled(next, l)
            &&& forall|d: DocumentId|
                d != document_of(link) ==> (#[trigger] next.documents.dom().contains(d)
                    == m.documents.dom().contains(d)) && next.documents[d] == m.documents[d]
        },
{
    if let Ok((next, n)) = sync_projection(m, link, version, mode) {
        unchanged_document_is_suppressed(m, link, version, mode, 0, ProjectionOutboxMode::Durable);
        lemma_sync_projection(m, link, version, mode, Set::full());
        lemma_build_document_frame(m, next, link, version, 0);
        assert forall|l: FileLinkId| #[trigger] settled(m, l) implies settled(next, l) by {
            lemma_build_document_frame(m, next, l, 0, 0);
            assert(l != link ==> document_of(l) != document_of(link));
        }
    }
}

proof fn lemma_sync_links_settles(
    m: GraphModel,
    links: Seq<FileLinkId>,
    version: u64,
    mode: ProjectionOutboxMode,
    n: nat,
)
    requires
        rows_sound(m),
        version <= column_max(),
        n <= links.len(),
    ensures
        sync_links(m, links, version, mode, n) matches Ok((next, count)) ==> {
            &&& rows_sound(next)
            &&& next == (GraphModel {
                documents: next.documents,
                outbox: next.outbox,
                issued: next.issued,
                ..m
            })
            &&& forall|i: int| 0 <= i < n ==> settled(next, #[trigger] links[i])
            &&& forall|l: FileLinkId| #[trigger] settled(m, l) ==> settled(next, l)
            &&& forall|l: FileLinkId|
                (forall|i: int| 0 <= i < n ==> links[i] != l) ==> (#[trigger] next.documents.dom().contains(
                    document_of(l),
                ) == m.documents.dom().contains(document_of(l))) && next.documents[document_of(l)]
                    == m.documents[document_of(l)]
        },
    decreases n,
{
    if n > 0 {
        lemma_sync_links_settles(m, links, version, mode, (n - 1) as nat);
        if let Ok((before, count)) = sync_links(m, links, version, mode, (n - 1) as nat) {
            lemma_sync_settles(before, links[n - 1], version, mode);
            lemma_sync_projection(before, links[n - 1], version, mode, Set::full());
        }
    }
}

/// A batch leaves every link that its mutations touch settled: desired documents and graph are
/// brought forward in one step.
pub proof fn batch_settles_the_links_it_touches(
    m: GraphModel,
    batch: BatchModel,
    mode: ProjectionOutboxMode,
    links: Seq<FileLinkId>,
)
    requires
        sound(m),
        run_mutations(
            m,
            batch.mutations,
            (generation_of(m, batch.volume_id) + 1) as u64,
            batch.mutations.len(),
        ) matches Ok(p) ==> is_listing(
            links,
            |l: FileLinkId| p.affected.contains(l),
            key_rank::<FileLinkId>(),
        ),
    ensures
        apply_batch(m, batch, mode) matches Ok((next, summary)) ==> forall|i: int|
            0 <= i < links.len() ==> settled(next, #[trigger] links[i]),
{
    if let Ok((next, summary)) = apply_batch(m, batch, mode) {
        let generation = (generation_of(m, batch.volume_id) + 1) as u64;
        let p = run_mutations(m, batch.mutations, generation, batch.mutations.len())->Ok_0;
        let touched = |l: FileLinkId| p.affected.contains(l);
        let listed = ascending_links(p.affected);
        lemma_run_mutations(m, batch.mutations, generation, batch.mutations.len());
        assert(is_listing(links, touched, key_rank::<FileLinkId>()));
        assert(is_listing(listed, touched, key_rank::<FileLinkId>()));
        lemma_sync_links_settles(p.graph, listed, generation, mode, listed.len());
        let synced = sync_links(p.graph, listed, generation, mode, listed.len())->Ok_0.0;
        lemma_settled_frame(synced, next);
        assert forall|i: int| 0 <= i < links.len() implies settled(next, #[trigger] links[i]) by {
            assert(touched(links[i]));
            let j = listed.index_of(links[i]);
            assert(listed[j] == links[i]);
            assert(settled(synced, listed[j]));
        }
    }
}

/// A refresh of the paths below a moved directory converges: each step settles one more page of
/// links and unsettles none, and the step that completes the job leaves every link of the volume
/// settled.
pub proof fn path_refresh_settles_the_volume(
    m: GraphModel,
    job: JobId,
    page: Seq<FileLinkId>,
    limit: nat,
)
    requires
        sound(m),
        m.path_jobs.dom().contains(job),
        is_page(
            page,
            links_after(m, m.path_jobs[job].root_object.volume_id, m.path_jobs[job].cursor),
            key_rank::<FileLinkId>(),
            limit,
        ),
        limit > 0,
        forall|l: FileLinkId| #[trigger]
            links_after(m, m.path_jobs[job].root_object.volume_id, None)(l) && (
            m.path_jobs[job].cursor matches Some(c) && l.value <= c.value) ==> settled(m, l),
    ensures
        refresh_paths_step(m, job, page, limit) matches Ok((next, summary)) ==> {
            let volume = m.path_jobs[job].root_object.volume_id;
            &&& forall|l: FileLinkId| #[trigger] settled(m, l) ==> settled(next, l)
            &&& summary.job_completed ==> forall|l: FileLinkId| #[trigger]
                links_after(next, volume, None)(l) ==> settled(next, l)
            &&& !summary.job_completed ==> forall|l: FileLinkId| #[trigger]
                links_after(next, volume, None)(l) && (next.path_jobs[job].cursor matches Some(c)
                    && l.value <= c.value) ==> settled(next, l)
        },
{
    let row = m.path_jobs[job];
    let volume = row.root_object.volume_id;
    let generation = m.volumes[volume].generation;
    assert(m.objects.dom().contains(row.root_object));
    lemma_sync_links_settles(m, page, generation, ProjectionOutboxMode::Durable, page.len());
    if let Ok((next, summary)) = refresh_paths_step(m, job, page, limit) {
        let synced = sync_links(
            m,
            page,
            generation,
            ProjectionOutboxMode::Durable,
            page.len(),
        )->Ok_0.0;
        lemma_settled_frame(synced, next);
        let after = links_after(m, volume, row.cursor);
        assert forall|l: FileLinkId| #[trigger]
            links_after(next, volume, None)(l) && (summary.job_completed || l.value
                <= page.last().value) implies settled(next, l) by {
            assert(links_after(m, volume, None)(l));
            if after(l) {
                if page.contains(l) {
                    let i = page.index_of(l);
                    assert(page[i] == l);
                    assert(settled(synced, page[i]));
                } else {
                    assert(page.len() == limit);
                    assert(key_rank::<FileLinkId>()(page[page.len() - 1])
                        < key_rank::<FileLinkId>()(l));
                }
            } else {
                assert(settled(m, l));
            }
            assert(settled(synced, l));
        }
    }
}

/// The steps of one path refresh, one after the other, with nothing else in between: each takes
/// the next page of links of the volume, and only the last one completes the job.
pub open spec fn is_path_refresh(
    job: JobId,
    states: Seq<GraphModel>,
    pages: Seq<Seq<FileLinkId>>,
    limits: Seq<nat>,
) -> bool {
    &&& states.len() == pages.len() + 1
    &&& limits.len() == pages.len()
    &&& pages.len() > 0
    &&& states[0].path_jobs.dom().contains(job)
    &&& states[0].path_jobs[job].cursor is None
    &&& forall|i: int|
        0 <= i < pages.len() ==> is_refresh_step(
            job,
            #[trigger] states[i],
            pages[i],
            limits[i],
            states[i + 1],
            i == pages.len() - 1,
        )
}

/// One step of a path refresh.
pub open spec fn is_refresh_step(
    job: JobId,
    before: GraphModel,
    page: Seq<FileLinkId>,
    limit: nat,
    after: GraphModel,
    completes: bool,
) -> bool {
    let row = before.path_jobs[job];
    &&& limit > 0
    &&& is_page(
        page,
        links_after(before, row.root_object.volume_id, row.cursor),
        key_rank::<FileLinkId>(),
        limit,
    )
    &&& refresh_paths_step(before, job, page, limit) matches Ok((next, summary)) && next == after
        && summary.job_completed == completes
}

proof fn lemma_path_refresh(
    job: JobId,
    states: Seq<GraphModel>,
    pages: Seq<Seq<FileLinkId>>,
    limits: Seq<nat>,
    n: int,
)
    requires
        sound(states[0]),
        is_path_refresh(job, states, pages, limits),
        0 <= n <= pages.len(),
    ensures
        ({
            let volume = states[0].path_jobs[job].root_object.volume_id;
            let m = states[n];
            &&& sound(m)
            &&& m.path_jobs.dom().contains(job)
            &&& m.path_jobs[job].root_object.volume_id == volume
            &&& forall|l: FileLinkId| #[trigger] settled(states[0], l) ==> settled(m, l)
            &&& n < pages.len() ==> forall|l: FileLinkId| #[trigger]
                links_after(m, volume, None)(l) && (m.path_jobs[job].cursor matches Some(c)
                    && l.value <= c.value) ==> settled(m, l)
            &&& n == pages.len() ==> forall|l: FileLinkId| #[trigger]
                links_after(m, volume, None)(l) ==> settled(m, l)
        }),
    decreases n,
{
    if n > 0 {
        lemma_path_refresh(job, states, pages, limits, n - 1);
        let m = states[n - 1];
        assert(is_refresh_step(
            job,
            states[n - 1],
            pages[n - 1],
            limits[n - 1],
            states[n - 1 + 1],
            n - 1 == pages.len() - 1,
        ));
        path_refresh_settles_the_volume(m, job, pages[n - 1], limits[n - 1]);
        lemma_refresh_paths_step(m, job, pages[n - 1], limits[n - 1]);
        lemma_sync_links(
            m,
            pages[n - 1],
            m.volumes[m.path_jobs[job].root_object.volume_id].generation,
            ProjectionOutboxMode::Durable,
            pages[n - 1].len(),
            Set::empty(),
        );
    }
}

/// The fingerprint of the stored document tells its path: no document of another path shares it.
pub open spec fn is_telling(row: DocumentRowModel) -> bool {
    row.payload matches PayloadModel::Compact { path, fingerprint } ==> forall|d: DocumentModel|
        #[trigger] document_fingerprint(d) == fingerprint ==> d.resolved_path == path
}

/// A path refresh that is repeated until its job is complete settles every link of the volume, and
/// unsettles none: each link that has a path then has a document of that path, unless documents of
/// different paths share a fingerprint, and each other one has none.
pub proof fn repeated_path_refresh_settles_the_volume(
    job: JobId,
    states: Seq<GraphModel>,
    pages: Seq<Seq<FileLinkId>>,
    limits: Seq<nat>,
    link: FileLinkId,
)
    requires
        sound(states[0]),
        is_path_refresh(job, states, pages, limits),
        states.last().links.dom().contains(link),
        states.last().links[link].object_key.volume_id
            == states[0].path_jobs[job].root_object.volume_id,
    ensures
        ({
            let m = states.last();
            let id = document_of(link);
            &&& settled(m, link)
            &&& forall|l: FileLinkId| #[trigger] settled(states[0], l) ==> settled(m, l)
            &&& m.documents.dom().contains(id) <==> resolve_path(m, link, catalog_depth()) is Ok
            &&& m.documents.dom().contains(id) ==> {
                let document = build_document(m, link, 0)->Ok_0;
                &&& build_document(m, link, 0) is Ok
                &&& document.resolved_path == joined(
                    resolve_path(m, link, catalog_depth())->Ok_0,
                    '/',
                )
                &&& content_unchanged(m.documents[id], document)
                &&& is_telling(m.documents[id]) ==> desired_document(m, id).resolved_path
                    == document.resolved_path
            }
        }),
{
    lemma_path_refresh(job, states, pages, limits, pages.len() as int);
    let m = states.last();
    let volume = states[0].path_jobs[job].root_object.volume_id;
    assert(links_after(m, volume, None)(link));
}

/// Maintenance discards exactly the oldest rows that no consumer needs, at most as many as the
/// limit allows: all of them, or as many as the limit, each older than every one that stays. It
/// touches neither the last sequence nor the desired documents.
pub proof fn pruning_discards_the_oldest_rows(
    m: GraphModel,
    safe: u64,
    page: Seq<MutationSeq>,
    limit: nat,
)
    requires
        is_page(page, outbox_through(m, safe), key_rank::<MutationSeq>(), limit),
    ensures
        ({
            let next = without_outbox(m, page.to_set());
            &&& page.len() <= limit
            &&& forall|s: MutationSeq| #[trigger]
                next.outbox.dom().contains(s) <==> m.outbox.dom().contains(s) && !page.contains(s)
            &&& forall|s: MutationSeq| #[trigger]
                next.outbox.dom().contains(s) ==> next.outbox[s] == m.outbox[s]
            &&& forall|s: MutationSeq| #[trigger]
                page.contains(s) ==> m.outbox.dom().contains(s) && s.0 <= safe
            &&& forall|gone: MutationSeq, kept: MutationSeq| #[trigger]
                page.contains(gone) && #[trigger] next.outbox.dom().contains(kept) && kept.0
                    <= safe ==> gone.0 < kept.0
            &&& forall|kept: MutationSeq| #[trigger]
                next.outbox.dom().contains(kept) && kept.0 <= safe ==> page.len() == limit
            &&& next.issued == m.issued
            &&& next.documents == m.documents
            &&& next.consumers == m.consumers
        }),
{
    let eligible = outbox_through(m, safe);
    let rank = key_rank::<MutationSeq>();
    assert forall|s: MutationSeq| #[trigger] page.contains(s) implies eligible(s) by {
        let i = page.index_of(s);
        assert(page[i] == s);
    }
    assert forall|gone: MutationSeq, kept: MutationSeq|
        #[trigger] page.contains(gone) && #[trigger] without_outbox(
            m,
            page.to_set(),
        ).outbox.dom().contains(kept) && kept.0 <= safe implies gone.0 < kept.0 && page.len()
        == limit by {
        assert(eligible(kept) && !page.contains(kept));
        let i = page.index_of(gone);
        assert(rank(page[i]) < rank(kept));
    }
    assert forall|kept: MutationSeq| #[trigger]
        without_outbox(m, page.to_set()).outbox.dom().contains(kept) && kept.0 <= safe implies
        page.len() == limit by {
        assert(eligible(kept) && !page.contains(kept));
    }
}

proof fn lemma_settled_frame(m: GraphModel, n: GraphModel)
    requires
        same_sources(m, n),
        n.documents == m.documents,
    ensures
        forall|l: FileLinkId| #[trigger] settled(m, l) ==> settled(n, l),
{
    assert forall|l: FileLinkId| #[trigger] settled(m, l) implies settled(n, l) by {
        lemma_build_document_frame(m, n, l, 0, 0);
    }
}

/// A refresh of the documents of a volume converges: each step settles one more page of links and
/// unsettles none, and the step that completes the refresh leaves every link with a document on
/// the volume settled.
pub proof fn volume_refresh_settles_the_documents(
    m: GraphModel,
    volume: VolumeId,
    page: Seq<FileLinkId>,
    limit: nat,
)
    requires
        sound(m),
        m.volume_jobs.dom().contains(volume),
        is_page(
            page,
            document_links_after(m, volume, m.volume_jobs[volume].cursor),
            key_rank::<FileLinkId>(),
            limit,
        ),
        limit > 0,
        forall|l: FileLinkId| #[trigger]
            document_links_after(m, volume, None)(l) && (m.volume_jobs[volume].cursor matches Some(
                c,
            ) && l.value <= c.value) ==> settled(m, l),
    ensures
        refresh_volume_step(m, volume, page, limit) matches Ok((next, summary)) ==> {
            &&& forall|l: FileLinkId| #[trigger] settled(m, l) ==> settled(next, l)
            &&& summary.job_completed ==> forall|l: FileLinkId| #[trigger]
                document_links_after(next, volume, None)(l) ==> settled(next, l)
            &&& !summary.job_completed ==> forall|l: FileLinkId| #[trigger]
                document_links_after(next, volume, None)(l) && (
                next.volume_jobs[volume].cursor matches Some(c) && l.value <= c.value) ==> settled(
                    next,
                    l,
                )
        },
{
    let row = m.volume_jobs[volume];
    let generation = m.volumes[volume].generation;
    lemma_sync_links_settles(m, page, generation, ProjectionOutboxMode::Durable, page.len());
    if let Ok((next, summary)) = refresh_volume_step(m, volume, page, limit) {
        let synced = sync_links(
            m,
            page,
            generation,
            ProjectionOutboxMode::Durable,
            page.len(),
        )->Ok_0.0;
        lemma_settled_frame(synced, next);
        let after = document_links_after(m, volume, row.cursor);
        assert forall|l: FileLinkId| #[trigger]
            document_links_after(next, volume, None)(l) && (summary.job_completed || l.value
                <= page.last().value) implies settled(next, l) by {
            if page.contains(l) {
                let i = page.index_of(l);
                assert(page[i] == l);
                assert(settled(synced, page[i]));
            } else {
                assert forall|i: int| 0 <= i < page.len() implies page[i] != l by {
                    assert(page.contains(page[i]));
                }
                assert(synced.documents.dom().contains(document_of(l)));
                assert(document_links_after(m, volume, None)(l));
                if after(l) {
                    assert(page.len() == limit);
                    assert(key_rank::<FileLinkId>()(page[page.len() - 1])
                        < key_rank::<FileLinkId>()(l));
                } else {
                    assert(settled(m, l));
                }
            }
            assert(settled(synced, l));
        }
    }
}

/// Compaction is lossless: a document that says what the graph says reads back the same, and
/// calls for no new outbox row.
pub proof fn compaction_is_lossless(m: GraphModel, page: Seq<DocumentId>, n: nat, id: DocumentId)
    requires
        sound(m),
        n <= page.len(),
        forall|i: int| 0 <= i < page.len() ==> m.documents.dom().contains(#[trigger] page[i]),
        m.documents.dom().contains(id),
        m.documents[id].payload matches PayloadModel::Legacy { document } ==> {
            &&& document.identity.object_key == m.documents[id].object_key
            &&& build_document(m, m.documents[id].file_link_id, m.documents[id].version) == Ok::<
                DocumentModel,
                ErrorModel,
            >(document)
        },
    ensures
        ({
            let next = compact_documents(m, page, n);
            &&& next.documents.dom() == m.documents.dom()
            &&& desired_document(next, id) == desired_document(m, id)
            &&& settled(m, m.documents[id].file_link_id) ==> settled(
                next,
                m.documents[id].file_link_id,
            )
            &&& next.outbox == m.outbox
        }),
{
    lemma_compact(m, page, n);
    lemma_compacted_at(m, page, n, id);
    let next = compact_documents(m, page, n);
    let row = m.documents[id];
    let link = row.file_link_id;
    assert(id == document_of(link));
    lemma_build_document_frame(m, next, link, 0, 0);
    if let PayloadModel::Legacy { document } = row.payload {
        lemma_build_document_frame(m, m, link, row.version, 0);
        let current = build_document(m, link, 0)->Ok_0;
        assert(document_fingerprint(current) == document_fingerprint(document));
        assert(desired_document(next, id) == document);
    }
}

proof fn lemma_compacted_at(m: GraphModel, page: Seq<DocumentId>, n: nat, id: DocumentId)
    requires
        n <= page.len(),
    ensures
        compact_documents(m, page, n).documents[id] == m.documents[id] || compact_documents(
            m,
            page,
            n,
        ).documents[id] == compacted(m.documents[id]),
    decreases n,
{
    if n > 0 {
        lemma_compacted_at(m, page, (n - 1) as nat, id);
    }
}

/// An applied batch makes its checkpoint current in the same step in which its mutations take
/// effect, under the generation that follows the last one.
pub proof fn checkpoint_moves_with_its_batch(
    m: GraphModel,
    batch: BatchModel,
    mode: ProjectionOutboxMode,
)
    ensures
        apply_batch(m, batch, mode) matches Ok((next, summary)) ==> {
            &&& next.checkpoints[batch.volume_id] == batch.checkpoint
            &&& next.volumes[batch.volume_id].generation == generation_of(m, batch.volume_id) + 1
            &&& summary.generation == generation_of(m, batch.volume_id) + 1
        },
{
}

/// A compact document shows the state of its volume: offline while the volume is, unknown while
/// the volume has to be reconciled, and what the object itself says while it is online.
pub proof fn documents_follow_the_state_of_their_volume(m: GraphModel, id: DocumentId)
    requires
        m.documents[id].payload is Compact,
    ensures
        desired_document(m, id).metadata.availability == effective_availability(
            m.objects[m.documents[id].object_key].metadata.availability,
            m.volumes[m.documents[id].object_key.volume_id].state,
        ),
{
}

proof fn lemma_last_dot(name: Seq<char>, dot: int)
    requires
        is_last_dot(name, dot),
    ensures
        forall|i: int| #[trigger] is_last_dot(name, i) ==> i == dot,
{
    assert forall|i: int| #[trigger] is_last_dot(name, i) implies i == dot by {
        if i < dot {
            assert(name[dot] != '.');
        }
        if dot < i {
            assert(name[i] != '.');
        }
    }
}

/// The extension of a name is what follows its last dot, in lower case, whatever comes before: a
/// name without a dot and a name that ends in one have none.
pub proof fn extension_follows_the_last_dot(stem: Seq<char>, tail: Seq<char>)
    requires
        tail.len() > 0,
        !tail.contains('.'),
    ensures
        extension_of(stem + seq!['.'] + tail) == Some(lowercase_of(tail)),
        extension_of(stem + seq!['.']) is None,
        extension_of(tail) is None,
        extension_of(Seq::empty()) is None,
{
    let name = stem + seq!['.'] + tail;
    let dot = stem.len() as int;
    assert forall|j: int| dot < j < name.len() implies #[trigger] name[j] != '.' by {
        assert(name[j] == tail[j - dot - 1]);
        assert(tail.contains(tail[j - dot - 1]));
    }
    assert(is_last_dot(name, dot));
    lemma_last_dot(name, dot);
    assert(name.subrange(dot + 1, name.len() as int) =~= tail);
    let closed = stem + seq!['.'];
    assert(is_last_dot(closed, dot));
    lemma_last_dot(closed, dot);
    assert forall|i: int| !#[trigger] is_last_dot(tail, i) by {
        if is_last_dot(tail, i) {
            assert(tail.contains(tail[i]));
        }
    }
}

} // verus!
