//! What reading, maintenance and scans of the graph do.

use vstd::prelude::*;

use crate::catalog::{
    CheckpointModel, DescriptorModel, FileKind, MutationBatch, ReconciliationReason,
};
use crate::graph::domain::{
    GraphIntegrityIssue, ObservationScanMode, ObservationScanPhase, VolumeState,
};
use crate::graph::error::ErrorModel;
use crate::graph::model::{
    build_document, column_max, content_unchanged, document_of, generation_of, has_no_path,
    names_object, occupies, stale_conflicts, sync_projection, GraphModel, ProjectionOutboxMode,
};
use crate::graph::scan_model::{
    begin_scan, big_endian, finalize_links, finalize_objects, lemma_sweep_links,
    scan_checkpoint, stage_checkpoint, stale_links, stale_objects, sweep_links, sweep_objects,
};
use crate::graph::soundness::{lemma_remove_link, lemma_sync_projection, rows_sound, sound};
use crate::graph::store::outbox::is_outbox_page;
use crate::graph::upkeep_model::{
    acknowledge, all_issues, desired_document, document_links_after, documents_after,
    documents_on, how_many, is_least_acknowledged, links_after, live_files, live_objects,
    orphans, outbox_after, parentless, refresh_paths_step, refresh_volume_step, safe_through,
    tombstoned_objects, total_size,
};
use crate::ids::{DocumentId, FileId128, FileKey, FileLinkId, JobId, MutationSeq, VolumeId};
use crate::order::{first_page, is_listing, is_page};
use crate::selection::pair_rank;
use crate::table::{key_rank, TableKey};

verus! {

/// Progress is recorded as it was told, for that consumer alone: it is refused exactly where it
/// would lie beyond the outbox, move back, or not fit.
pub proof fn acknowledged_progress_is_recorded(
    m: GraphModel,
    consumer: Seq<char>,
    last_sequence: u64,
    index_generation: u64,
)
    ensures
        ({
            let outcome = acknowledge(m, consumer, last_sequence, index_generation);
            &&& outcome is Ok <==> {
                &&& last_sequence <= m.issued
                &&& m.consumers.dom().contains(consumer) ==> m.consumers[consumer].last_sequence
                    <= last_sequence
                &&& index_generation <= i64::MAX
            }
            &&& outcome matches Ok(next) ==> {
                &&& next.consumers.dom() == m.consumers.dom().insert(consumer)
                &&& next.consumers[consumer].last_sequence == last_sequence
                &&& next.consumers[consumer].index_generation == index_generation
                &&& forall|c: Seq<char>|
                    c != consumer ==> #[trigger] next.consumers[c] == m.consumers[c]
                &&& next == (GraphModel { consumers: next.consumers, ..m })
            }
        }),
{
}

/// A page of the outbox leaves no gap: its rows are the very next ones after the cursor, oldest
/// first and with nothing passed over, and it is short only where the outbox ends. Each row is
/// handed out as it was appended.
pub proof fn outbox_pages_leave_no_gap(
    m: GraphModel,
    batch: MutationBatch,
    after: u64,
    limit: nat,
)
    requires
        is_outbox_page(m, batch, after, limit),
    ensures
        batch.mutations@.len() <= limit,
        forall|i: int|
            0 <= i < batch.mutations@.len() ==> {
                let row = #[trigger] batch.mutations@[i];
                &&& row.sequence.0 > after
                &&& m.outbox.dom().contains(row.sequence)
                &&& row.mutation@ == m.outbox[row.sequence].mutation
            },
        forall|i: int, j: int|
            0 <= i < j < batch.mutations@.len() ==> (#[trigger] batch.mutations@[i]).sequence.0 < (
            #[trigger] batch.mutations@[j]).sequence.0,
        forall|s: MutationSeq| #[trigger]
            m.outbox.dom().contains(s) && s.0 > after && (batch.mutations@.len() < limit || (limit
                > 0 && s.0 <= batch.mutations@.last().sequence.0)) ==> exists|i: int|
                0 <= i < batch.mutations@.len() && (#[trigger] batch.mutations@[i]).sequence == s,
{
    let eligible = outbox_after(m, after);
    let rank = key_rank::<MutationSeq>();
    let page = first_page(eligible, rank, limit);
    assert forall|i: int| 0 <= i < batch.mutations@.len() implies {
        let row = #[trigger] batch.mutations@[i];
        &&& row.sequence.0 > after
        &&& m.outbox.dom().contains(row.sequence)
        &&& row.mutation@ == m.outbox[row.sequence].mutation
    } by {
        assert(eligible(page[i]));
    }
    assert forall|i: int, j: int| 0 <= i < j < batch.mutations@.len() implies (
    #[trigger] batch.mutations@[i]).sequence.0 < (#[trigger] batch.mutations@[j]).sequence.0 by {
        assert(rank(page[i]) < rank(page[j]));
    }
    assert forall|s: MutationSeq| #[trigger]
        m.outbox.dom().contains(s) && s.0 > after && (batch.mutations@.len() < limit || (limit > 0
            && s.0 <= batch.mutations@.last().sequence.0)) implies exists|i: int|
        0 <= i < batch.mutations@.len() && (#[trigger] batch.mutations@[i]).sequence == s by {
        assert(eligible(s));
        if page.contains(s) {
            let i = page.index_of(s);
            assert(batch.mutations@[i].sequence == s);
        } else {
            assert(page.len() == limit);
            assert(rank(page[page.len() - 1]) < rank(s));
            assert(batch.mutations@[page.len() - 1].sequence == page[page.len() - 1]);
        }
    }
}

/// Rows may be discarded up to what the slowest consumer has taken over; without consumers only
/// where that is allowed, and then all of them.
pub proof fn rows_are_kept_for_the_slowest_consumer(
    m: GraphModel,
    allow_without_consumers: bool,
    slowest: Seq<char>,
)
    requires
        m.consumers.dom().contains(slowest),
        forall|c: Seq<char>| #[trigger]
            m.consumers.dom().contains(c) ==> m.consumers[slowest].last_sequence
                <= m.consumers[c].last_sequence,
    ensures
        safe_through(m, allow_without_consumers) == Some(m.consumers[slowest].last_sequence),
{
    let least = m.consumers[slowest].last_sequence;
    assert(is_least_acknowledged(m, least));
    let chosen = choose|least: u64| is_least_acknowledged(m, least);
    let c = choose|c: Seq<char>| #[trigger]
        m.consumers.dom().contains(c) && m.consumers[c].last_sequence == chosen;
    assert(m.consumers.dom().contains(c));
}

/// Without consumers nothing is discarded, unless a rebuild is allowed.
pub proof fn rows_without_consumers_need_permission(m: GraphModel)
    requires
        m.consumers.dom() == Set::<Seq<char>>::empty(),
    ensures
        safe_through(m, false) is None,
        m.issued > 0 ==> safe_through(m, true) == Some(m.issued),
        m.issued == 0 ==> safe_through(m, true) is None,
{
}

/// A document that is stored reads back as it was built, under the version of the change.
pub proof fn stored_documents_read_back(
    m: GraphModel,
    link: FileLinkId,
    version: u64,
    mode: ProjectionOutboxMode,
)
    requires
        m.links.dom().contains(link),
        build_document(m, link, version) is Ok,
        m.documents.dom().contains(document_of(link)) ==> !content_unchanged(
            m.documents[document_of(link)],
            build_document(m, link, version)->Ok_0,
        ),
    ensures
        sync_projection(m, link, version, mode) matches Ok((next, n)) ==> {
            &&& desired_document(next, document_of(link)) == build_document(
                m,
                link,
                version,
            )->Ok_0
            &&& n == (if mode == ProjectionOutboxMode::Durable {
                1nat
            } else {
                0
            })
            &&& mode == ProjectionOutboxMode::Durable ==> next.outbox.dom().contains(
                MutationSeq(next.issued),
            ) && next.outbox[MutationSeq(next.issued)].mutation
                == crate::catalog::IndexMutationModel::Upsert {
                document: build_document(m, link, version)->Ok_0,
            } && next.outbox[MutationSeq(next.issued)].document_id == document_of(link)
                && next.outbox[MutationSeq(next.issued)].document_version == version
            &&& mode == ProjectionOutboxMode::Rebuildable ==> next.outbox == m.outbox && next.issued
                == m.issued
        },
{
}

/// A link that is gone or has no path loses its document, and consumers are told once.
pub proof fn lost_documents_are_told_once(
    m: GraphModel,
    link: FileLinkId,
    version: u64,
    mode: ProjectionOutboxMode,
)
    requires
        !m.links.dom().contains(link) || (build_document(m, link, version) matches Err(e)
            && has_no_path(e)),
    ensures
        sync_projection(m, link, version, mode) matches Ok((next, n)) ==> {
            let id = document_of(link);
            &&& !next.documents.dom().contains(id)
            &&& forall|d: DocumentId|
                d != id ==> (#[trigger] next.documents.dom().contains(d)
                    == m.documents.dom().contains(d)) && next.documents[d] == m.documents[d]
            &&& n == (if mode == ProjectionOutboxMode::Durable && m.documents.dom().contains(id) {
                1nat
            } else {
                0
            })
            &&& n == 0 ==> next.outbox == m.outbox && next.issued == m.issued
            &&& n == 1 ==> next.issued == m.issued + 1 && next.outbox[MutationSeq(
                next.issued,
            )].mutation == crate::catalog::IndexMutationModel::Delete {
                document_id: id,
                document_version: crate::ids::DocumentVersion(version),
            } && next.outbox[MutationSeq(next.issued)].document_id == id
        },
        m.issued < i64::MAX ==> sync_projection(m, link, version, mode) is Ok,
{
}

/// A link without a path keeps no document whatever kept it from having one: a missing, doubtful
/// or forbidden directory above it, a cycle, or too many names.
pub proof fn every_missing_path_counts(key: FileKey, link: FileLinkId, limit: nat, text: Seq<char>)
    ensures
        has_no_path(ErrorModel::MissingParent(key)),
        has_no_path(ErrorModel::AmbiguousParent(key)),
        has_no_path(ErrorModel::ParentCycle(key)),
        has_no_path(ErrorModel::TraversalBoundary(link)),
        has_no_path(ErrorModel::DepthLimit(limit)),
        !has_no_path(ErrorModel::Invariant(text)),
        !has_no_path(ErrorModel::LinkNotFound(link)),
{
}

/// The compact form of a document reads back what the graph says now of its link, its object and
/// its volume, and the path that was stored.
pub proof fn compact_documents_read_the_graph(m: GraphModel, id: DocumentId)
    requires
        m.documents[id].payload is Compact,
    ensures
        ({
            let row = m.documents[id];
            let document = desired_document(m, id);
            let metadata = m.objects[row.object_key].metadata;
            &&& document.identity.document_id == id
            &&& document.identity.file_link_id == row.file_link_id
            &&& document.identity.object_key == row.object_key
            &&& document.document_version.0 == row.version
            &&& document.name == m.links[row.file_link_id].name
            &&& document.resolved_path == row.payload->path
            &&& document.extension == crate::graph::model::extension_of(document.name)
            &&& document.metadata.kind == metadata.kind
            &&& document.metadata.size == metadata.size
            &&& document.metadata.created_at_unix_ms == metadata.created_at_unix_ms
            &&& document.metadata.modified_at_unix_ms == metadata.modified_at_unix_ms
            &&& document.metadata.hidden == metadata.hidden
        }),
{
}

/// Pages of documents follow one another: after the last document of a full page the next page
/// goes on with the first one behind it, and a short page is the last.
pub proof fn document_pages_leave_no_gap(
    m: GraphModel,
    after: Option<DocumentId>,
    page: Seq<DocumentId>,
    limit: nat,
    document: DocumentId,
)
    requires
        is_page(page, documents_after(m, after), key_rank::<DocumentId>(), limit),
        m.documents.dom().contains(document),
        after matches Some(cursor) ==> document.value > cursor.value,
    ensures
        page.contains(document) || (limit > 0 ==> page.len() == limit && documents_after(
            m,
            Some(page.last()),
        )(document)),
        page.contains(document) && page.len() > 0 ==> !documents_after(m, Some(page.last()))(
            document,
        ),
{
    let eligible = documents_after(m, after);
    let rank = key_rank::<DocumentId>();
    assert(eligible(document));
    if page.contains(document) {
        let i = page.index_of(document);
        if i < page.len() - 1 {
            assert(rank(page[i]) < rank(page[page.len() - 1]));
        }
    } else if limit > 0 {
        assert(rank(page[page.len() - 1]) < rank(document));
    }
}

/// The documents of a volume are those whose object lies on it, and no document is on two.
pub proof fn documents_lie_on_one_volume(m: GraphModel, a: VolumeId, b: VolumeId, id: DocumentId)
    requires
        m.documents.dom().contains(id),
    ensures
        documents_on(m, m.documents[id].object_key.volume_id)(id),
        documents_on(m, a)(id) && documents_on(m, b)(id) ==> a == b,
{
}

/// A step of a path refresh takes the whole page, says how many rows it appended, and is complete
/// exactly where the page is short: the job is then done, and otherwise goes on behind the last
/// link of the page.
pub proof fn path_refresh_steps_move_on(
    m: GraphModel,
    job: JobId,
    page: Seq<FileLinkId>,
    limit: nat,
)
    requires
        rows_sound(m),
        m.path_jobs.dom().contains(job),
        page.len() <= limit <= u32::MAX,
        limit > 0,
    ensures
        refresh_paths_step(m, job, page, limit) matches Ok((next, summary)) ==> {
            &&& summary.links_scanned == page.len()
            &&& summary.job_completed <==> page.len() < limit
            &&& next.issued == m.issued + summary.outbox_mutations_appended
            &&& summary.job_completed ==> !next.path_jobs[job].pending
            &&& !summary.job_completed ==> next.path_jobs[job].cursor == Some(page.last())
                && next.path_jobs[job].pending == m.path_jobs[job].pending
            &&& next.path_jobs[job].root_object == m.path_jobs[job].root_object
            &&& forall|j: JobId| j != job ==> #[trigger] next.path_jobs[j] == m.path_jobs[j]
            &&& next.links == m.links && next.objects == m.objects && next.volumes == m.volumes
        },
{
    let root = m.path_jobs[job].root_object;
    assert(m.objects.dom().contains(root));
    let generation = m.volumes[root.volume_id].generation;
    crate::graph::soundness::lemma_sync_links(
        m,
        page,
        generation,
        ProjectionOutboxMode::Durable,
        page.len(),
        Set::full(),
    );
    crate::graph::laws::outbox_is_append_only(
        m,
        page,
        generation,
        ProjectionOutboxMode::Durable,
        page.len(),
    );
}

/// A step of a volume refresh takes the whole page, says how many rows it appended, and is
/// complete exactly where the page is short: the volume is then done, and otherwise goes on behind
/// the last link of the page.
pub proof fn volume_refresh_steps_move_on(
    m: GraphModel,
    volume: VolumeId,
    page: Seq<FileLinkId>,
    limit: nat,
)
    requires
        rows_sound(m),
        m.volume_jobs.dom().contains(volume),
        page.len() <= limit <= u32::MAX,
        limit > 0,
    ensures
        refresh_volume_step(m, volume, page, limit) matches Ok((next, summary)) ==> {
            &&& summary.links_scanned == page.len()
            &&& summary.job_completed <==> page.len() < limit
            &&& next.issued == m.issued + summary.outbox_mutations_appended
            &&& summary.job_completed ==> !next.volume_jobs[volume].pending
            &&& !summary.job_completed ==> next.volume_jobs[volume].cursor == Some(page.last())
                && next.volume_jobs[volume].pending == m.volume_jobs[volume].pending
            &&& forall|v: VolumeId| v != volume ==> #[trigger] next.volume_jobs[v]
                == m.volume_jobs[v]
            &&& next.links == m.links && next.objects == m.objects && next.volumes == m.volumes
        },
{
    let generation = m.volumes[volume].generation;
    crate::graph::soundness::lemma_sync_links(
        m,
        page,
        generation,
        ProjectionOutboxMode::Durable,
        page.len(),
        Set::full(),
    );
    crate::graph::laws::outbox_is_append_only(
        m,
        page,
        generation,
        ProjectionOutboxMode::Durable,
        page.len(),
    );
}

/// A refresh walks over every link of its volume, and only over those: a link is ahead of exactly
/// the cursors below it.
pub proof fn refreshes_walk_over_the_whole_volume(
    m: GraphModel,
    link: FileLinkId,
    cursor: FileLinkId,
    volume: VolumeId,
)
    requires
        m.links.dom().contains(link),
    ensures
        links_after(m, m.links[link].object_key.volume_id, None)(link),
        links_after(m, volume, None)(link) ==> m.links[link].object_key.volume_id == volume,
        links_after(m, volume, Some(cursor))(link) <==> links_after(m, volume, None)(link)
            && cursor.value < link.value,
        m.documents.dom().contains(document_of(link)) ==> document_links_after(
            m,
            m.documents[document_of(link)].object_key.volume_id,
            None,
        )(link),
        document_links_after(m, volume, Some(cursor))(link) <==> document_links_after(
            m,
            volume,
            None,
        )(link) && cursor.value < link.value,
{
}

/// Every object is counted once: as live or as gone.
pub proof fn objects_are_live_or_gone(m: GraphModel)
    requires
        m.objects.dom().finite(),
    ensures
        how_many(live_objects(m)) + how_many(tombstoned_objects(m)) == m.objects.dom().len(),
        how_many(live_files(m)) <= how_many(live_objects(m)),
        forall|k: FileKey| #[trigger]
            live_files(m)(k) ==> live_objects(m)(k) && m.objects[k].metadata.kind == FileKind::File,
        forall|k: FileKey| #[trigger]
            live_objects(m)(k) && !live_files(m)(k) ==> m.objects[k].metadata.kind
                != FileKind::File,
        forall|k: FileKey| #[trigger] live_objects(m)(k) ==> !m.objects[k].tombstoned,
{
    let live = Set::new(live_objects(m));
    let gone = Set::new(tombstoned_objects(m));
    let files = Set::new(live_files(m));
    let all = m.objects.dom();
    assert(live.union(gone) =~= all);
    assert(live.intersect(gone) =~= Set::empty());
    assert(live.subset_of(all) && gone.subset_of(all) && files.subset_of(live));
    vstd::set_lib::lemma_len_subset(live, all);
    vstd::set_lib::lemma_len_subset(gone, all);
    vstd::set_lib::lemma_len_subset(files, live);
    vstd::set_lib::lemma_set_disjoint_lens(live, gone);
}

/// Sizes add up: those of two lists together are those of both.
pub proof fn sizes_add_up(m: GraphModel, a: Seq<FileKey>, b: Seq<FileKey>)
    ensures
        total_size(m, a + b) == total_size(m, a) + total_size(m, b),
        b.len() == 1 ==> total_size(m, b) == m.objects[b[0]].metadata.size,
    decreases b.len(),
{
    if b.len() == 0 {
        assert(a + b =~= a);
    } else {
        sizes_add_up(m, a, b.drop_last());
        assert((a + b).drop_last() =~= a + b.drop_last());
        assert((a + b).last() == b.last());
        if b.len() == 1 {
            assert(b.drop_last().len() == 0);
        }
    }
}

/// The integrity report is complete and says nothing else: it names exactly the live objects that
/// no link names, and exactly the links whose directory is not a known object, with that directory.
pub proof fn integrity_issues_are_exactly_the_faults(
    m: GraphModel,
    objects: Seq<FileKey>,
    links: Seq<FileLinkId>,
    key: FileKey,
    link: FileLinkId,
    parent: FileKey,
)
    requires
        is_listing(objects, orphans(m), key_rank::<FileKey>()),
        is_listing(links, parentless(m), key_rank::<FileLinkId>()),
    ensures
        ({
            let issues = all_issues(m, objects, links);
            &&& issues.len() == objects.len() + links.len()
            &&& issues.contains(GraphIntegrityIssue::OrphanObject { object_key: key }) <==> {
                &&& m.objects.dom().contains(key)
                &&& !m.objects[key].tombstoned
                &&& forall|l: FileLinkId| #[trigger] m.links.dom().contains(l)
                    ==> m.links[l].object_key != key
            }
            &&& issues.contains(
                GraphIntegrityIssue::MissingParent { file_link_id: link, parent_key: parent },
            ) <==> {
                &&& m.links.dom().contains(link)
                &&& m.links[link].parent_key == Some(parent)
                &&& !m.objects.dom().contains(parent)
            }
        }),
{
    let issues = all_issues(m, objects, links);
    let orphan = GraphIntegrityIssue::OrphanObject { object_key: key };
    let lost = GraphIntegrityIssue::MissingParent { file_link_id: link, parent_key: parent };
    if issues.contains(orphan) {
        let i = issues.index_of(orphan);
        assert(i < objects.len());
        assert(orphans(m)(objects[i]));
        assert forall|l: FileLinkId| #[trigger] m.links.dom().contains(l) implies m.links[l].object_key
            != key by {
            assert(!names_object(m, l, key));
        }
    }
    if m.objects.dom().contains(key) && !m.objects[key].tombstoned && (forall|l: FileLinkId|
        #[trigger] m.links.dom().contains(l) ==> m.links[l].object_key != key) {
        assert(!crate::graph::model::is_linked(m, key)) by {
            if crate::graph::model::is_linked(m, key) {
                let l = choose|l: FileLinkId| #[trigger] names_object(m, l, key);
                assert(m.links.dom().contains(l));
            }
        }
        assert(orphans(m)(key));
        let i = objects.index_of(key);
        assert(issues[i] == orphan);
    }
    if issues.contains(lost) {
        let i = issues.index_of(lost);
        assert(i >= objects.len());
        assert(parentless(m)(links[i - objects.len()]));
    }
    if m.links.dom().contains(link) && m.links[link].parent_key == Some(parent)
        && !m.objects.dom().contains(parent) {
        assert(parentless(m)(link));
        let i = links.index_of(link);
        assert(issues[objects.len() + i] == lost);
    }
}

/// A scan starts under the next generation, marks the volume as in need of reconciliation for the
/// reason given, and queues its documents; it touches no object, link or document.
pub proof fn scans_start_under_a_new_generation(
    m: GraphModel,
    descriptor: DescriptorModel,
    mode: ObservationScanMode,
    reason: ReconciliationReason,
)
    ensures
        begin_scan(m, descriptor, mode, reason) is Ok <==> generation_of(m, descriptor.volume_id)
            < i64::MAX,
        begin_scan(m, descriptor, mode, reason) matches Ok((next, session)) ==> {
            let volume = descriptor.volume_id;
            &&& session.volume_id == volume
            &&& session.scan_generation == generation_of(m, volume) + 1
            &&& session.mode == mode
            &&& session.phase == ObservationScanPhase::Scanning
            &&& next.sessions.dom().contains(volume)
            &&& next.sessions[volume].scan_generation == session.scan_generation
            &&& next.sessions[volume].mode == mode
            &&& next.sessions[volume].phase == ObservationScanPhase::Scanning
            &&& next.sessions[volume].staged is None
            &&& next.volumes[volume].generation == session.scan_generation
            &&& next.volumes[volume].descriptor == descriptor
            &&& next.volumes[volume].state == VolumeState::NeedsReconciliation
            &&& next.volumes[volume].reason == Some(reason)
            &&& next.volume_jobs[volume].pending && next.volume_jobs[volume].cursor is None
            &&& next.objects == m.objects
            &&& next.links == m.links
            &&& next.documents == m.documents
            &&& next.outbox == m.outbox && next.issued == m.issued
            &&& next.checkpoints == m.checkpoints
            &&& forall|v: VolumeId| v != volume ==> #[trigger] next.volumes[v] == m.volumes[v]
            &&& forall|v: VolumeId| v != volume ==> #[trigger] next.sessions[v] == m.sessions[v]
        },
{
}

/// A checkpoint is staged once, for its own volume, while that volume is scanned: the sweep of the
/// links is next, and the checkpoint that is current stays so.
pub proof fn checkpoints_are_staged_for_their_scan(
    m: GraphModel,
    volume: VolumeId,
    checkpoint: CheckpointModel,
)
    ensures
        stage_checkpoint(m, volume, checkpoint) is Ok <==> {
            &&& checkpoint.volume_id == volume
            &&& m.sessions.dom().contains(volume)
            &&& m.sessions[volume].phase == ObservationScanPhase::Scanning
        },
        stage_checkpoint(m, volume, checkpoint) matches Ok(next) ==> {
            &&& next.sessions[volume].staged == Some(checkpoint)
            &&& next.sessions[volume].phase == ObservationScanPhase::SweepingLinks
            &&& next.sessions[volume].scan_generation == m.sessions[volume].scan_generation
            &&& next.sessions[volume].mode == m.sessions[volume].mode
            &&& next.checkpoints == m.checkpoints
            &&& forall|v: VolumeId| v != volume ==> #[trigger] next.sessions[v] == m.sessions[v]
            &&& next == (GraphModel { sessions: next.sessions, ..m })
            &&& stage_checkpoint(next, volume, checkpoint) is Err
        },
{
}

/// A link is swept only if it lies on the volume and was last seen before the scan; an object only
/// if, besides, it is live and no link names it.
pub proof fn only_what_a_scan_missed_is_stale(
    m: GraphModel,
    volume: VolumeId,
    cutoff: u64,
    link: FileLinkId,
    key: FileKey,
)
    ensures
        m.links.dom().contains(link) ==> (stale_links(m, volume, cutoff)(
            (m.links[link].observed, link.value),
        ) <==> m.links[link].object_key.volume_id == volume && m.links[link].observed < cutoff),
        !m.links.dom().contains(link) ==> forall|seen: u64|
            !#[trigger] stale_links(m, volume, cutoff)((seen, link.value)),
        m.objects.dom().contains(key) && key.volume_id == volume ==> (stale_objects(
            m,
            volume,
            cutoff,
        )((m.objects[key].observed, key.file_id.value)) <==> {
            &&& !m.objects[key].tombstoned
            &&& m.objects[key].observed < cutoff
            &&& forall|l: FileLinkId| #[trigger]
                m.links.dom().contains(l) ==> m.links[l].object_key != key
        }),
{
    let k = FileKey { volume_id: volume, file_id: FileId128 { value: key.file_id.value } };
    if m.objects.dom().contains(key) && key.volume_id == volume {
        assert(k == key);
        if crate::graph::model::is_linked(m, key) {
            let l = choose|l: FileLinkId| #[trigger] names_object(m, l, key);
            assert(m.links.dom().contains(l));
        } else {
            assert forall|l: FileLinkId| #[trigger] m.links.dom().contains(l) implies m.links[l].object_key
                != key by {
                assert(!names_object(m, l, key));
            }
        }
    }
}

proof fn lemma_sweep_spares(
    m: GraphModel,
    page: Seq<(u64, u128)>,
    generation: u64,
    n: nat,
    link: FileLinkId,
)
    requires
        sound(m),
        generation <= column_max(),
        n <= page.len(),
        m.links.dom().contains(link),
        forall|i: int| 0 <= i < n ==> (#[trigger] page[i]).1 != link.value,
    ensures
        sweep_links(m, page, generation, n) matches Ok(next) ==> next.links.dom().contains(link)
            && next.links[link] == m.links[link],
    decreases n,
{
    if n > 0 {
        lemma_sweep_spares(m, page, generation, (n - 1) as nat, link);
        lemma_sweep_links(m, page, generation, (n - 1) as nat);
        let l = FileLinkId { value: page[n - 1].1 };
        if let Ok(before) = sweep_links(m, page, generation, (n - 1) as nat) {
            let expected = m.links[l].object_key;
            lemma_remove_link(before, l, expected, generation, false);
            if let Ok((removed, c)) = crate::graph::model::remove_link(
                before,
                l,
                expected,
                generation,
                false,
            ) {
                lemma_sync_projection(
                    removed,
                    l,
                    generation,
                    ProjectionOutboxMode::Durable,
                    Set::full(),
                );
            }
        }
    }
}

/// What a scan has seen stays: a step of the link sweep leaves every link that was seen since the
/// scan began, and every link of another volume, as it is.
pub proof fn sweeps_spare_what_was_seen(
    m: GraphModel,
    volume: VolumeId,
    generation: u64,
    cutoff: u64,
    page: Seq<(u64, u128)>,
    limit: nat,
    link: FileLinkId,
)
    requires
        sound(m),
        generation <= column_max(),
        is_page(page, stale_links(m, volume, cutoff), pair_rank(), limit),
        m.links.dom().contains(link),
        m.links[link].observed >= cutoff || m.links[link].object_key.volume_id != volume,
    ensures
        finalize_links(m, volume, generation, page, limit) matches Ok((next, summary)) ==> {
            &&& next.links.dom().contains(link)
            &&& next.links[link] == m.links[link]
            &&& summary.stale_links_removed == page.len() as u64
            &&& !summary.completed
            &&& next.volumes[volume].generation == generation
            &&& (next.sessions[volume].phase == ObservationScanPhase::SweepingObjects
                <== page.len() < limit)
            &&& page.len() == limit ==> next.sessions[volume].phase == m.sessions[volume].phase
        },
{
    assert forall|i: int| 0 <= i < page.len() implies (#[trigger] page[i]).1 != link.value by {
        assert(stale_links(m, volume, cutoff)(page[i]));
    }
    lemma_sweep_spares(m, page, generation, page.len(), link);
    lemma_sweep_links(m, page, generation, page.len());
}

proof fn lemma_object_sweep_spares(
    m: GraphModel,
    volume: VolumeId,
    page: Seq<(u64, u128)>,
    n: nat,
    key: FileKey,
)
    requires
        n <= page.len(),
        forall|i: int|
            0 <= i < n ==> key.volume_id != volume || (#[trigger] page[i]).1 != key.file_id.value,
    ensures
        sweep_objects(m, volume, page, n).objects[key] == m.objects[key],
        sweep_objects(m, volume, page, n) == (GraphModel {
            objects: sweep_objects(m, volume, page, n).objects,
            ..m
        }),
    decreases n,
{
    if n > 0 {
        lemma_object_sweep_spares(m, volume, page, (n - 1) as nat, key);
    }
}

/// A step of the object sweep leaves every object that is linked, was seen since the scan began,
/// or lies on another volume as it is.
pub proof fn object_sweeps_spare_what_was_seen(
    m: GraphModel,
    volume: VolumeId,
    generation: u64,
    cutoff: u64,
    page: Seq<(u64, u128)>,
    limit: nat,
    key: FileKey,
)
    requires
        is_page(page, stale_objects(m, volume, cutoff), pair_rank(), limit),
        m.objects.dom().contains(key),
        m.objects[key].observed >= cutoff || key.volume_id != volume
            || crate::graph::model::is_linked(m, key),
    ensures
        ({
            let (next, summary) = finalize_objects(m, volume, generation, page, limit);
            &&& next.objects[key] == m.objects[key]
            &&& next.links == m.links
            &&& next.documents == m.documents
            &&& next.volumes[volume].generation == generation
            &&& summary.stale_objects_tombstoned == page.len() as u64
            &&& summary.completed <==> page.len() < limit
            &&& !summary.completed ==> next.sessions == m.sessions && next.checkpoints
                == m.checkpoints
        }),
{
    assert forall|i: int| 0 <= i < page.len() implies key.volume_id != volume || (
    #[trigger] page[i]).1 != key.file_id.value by {
        assert(stale_objects(m, volume, cutoff)(page[i]));
    }
    lemma_object_sweep_spares(m, volume, page, page.len(), key);
}

/// While a volume is scanned, an observed link supersedes only rows that are older than the scan:
/// the one under its identity if it named another object, and the one at its place.
pub proof fn scans_supersede_older_rows_alone(
    m: GraphModel,
    link: crate::catalog::LinkSnapshotModel,
    i: int,
)
    requires
        0 <= i < stale_conflicts(m, link).len(),
    ensures
        ({
            let (old, object) = stale_conflicts(m, link)[i];
            let session = m.sessions[link.object_key.volume_id];
            &&& m.sessions.dom().contains(link.object_key.volume_id)
            &&& session.phase == ObservationScanPhase::Scanning
            &&& m.links.dom().contains(old)
            &&& m.links[old].object_key == object
            &&& m.links[old].observed < session.scan_generation
            &&& if old == link.file_link_id {
                object != link.object_key
            } else {
                &&& m.links[old].name == link.name
                &&& m.links[old].parent_key == link.parent_key
                &&& link.parent_key is None ==> object.volume_id == link.object_key.volume_id
            }
        }),
{
    let cutoff = m.sessions[link.object_key.volume_id].scan_generation;
    if exists|other: FileLinkId| #[trigger]
        occupies(m, other, link) && m.links[other].observed < cutoff {
        let other = choose|other: FileLinkId| #[trigger]
            occupies(m, other, link) && m.links[other].observed < cutoff;
        assert(occupies(m, other, link));
    }
}

/// While a volume is scanned, an older row that stands in the way of an observed link is
/// superseded.
pub proof fn scans_supersede_what_is_in_the_way(
    m: GraphModel,
    link: crate::catalog::LinkSnapshotModel,
    old: FileLinkId,
)
    requires
        sound(m),
        m.sessions.dom().contains(link.object_key.volume_id),
        m.sessions[link.object_key.volume_id].phase == ObservationScanPhase::Scanning,
        m.links.dom().contains(old),
        m.links[old].observed < m.sessions[link.object_key.volume_id].scan_generation,
        (old == link.file_link_id && m.links[old].object_key != link.object_key) || occupies(
            m,
            old,
            link,
        ),
    ensures
        exists|i: int|
            0 <= i < stale_conflicts(m, link).len() && (#[trigger] stale_conflicts(m, link)[i]).0
                == old,
{
    let stale = stale_conflicts(m, link);
    let cutoff = m.sessions[link.object_key.volume_id].scan_generation;
    if old == link.file_link_id {
        assert(stale[0].0 == old);
    } else {
        let other = choose|other: FileLinkId| #[trigger]
            occupies(m, other, link) && m.links[other].observed < cutoff;
        assert(occupies(m, other, link));
        if other != old {
            assert(crate::graph::soundness::collide(m.links[other], m.links[old]));
        }
        assert(stale[stale.len() - 1].0 == old);
    }
}

/// The bytes of a number tell it: each is one digit to the base of 256, most significant first, so
/// that the checkpoints of two scans are never the same.
pub proof fn scan_checkpoints_tell_their_generation(volume: VolumeId, a: u64, b: u64)
    ensures
        big_endian(a).len() == 8,
        ({
            let d = big_endian(a);
            a == ((((((d[0] * 256 + d[1]) * 256 + d[2]) * 256 + d[3]) * 256 + d[4]) * 256 + d[5])
                * 256 + d[6]) * 256 + d[7]
        }),
        scan_checkpoint(volume, a) == scan_checkpoint(volume, b) <==> a == b,
        scan_checkpoint(volume, a).volume_id == volume,
{
    lemma_digits(a);
    lemma_digits(b);
    if scan_checkpoint(volume, a) == scan_checkpoint(volume, b) {
        assert(big_endian(a) == big_endian(b));
    }
}

proof fn lemma_digits(value: u64)
    ensures
        ({
            let d = big_endian(value);
            value == ((((((d[0] * 256 + d[1]) * 256 + d[2]) * 256 + d[3]) * 256 + d[4]) * 256
                + d[5]) * 256 + d[6]) * 256 + d[7]
        }),
{
    let d0 = (value >> 56) as u8;
    let d1 = (value >> 48) as u8;
    let d2 = (value >> 40) as u8;
    let d3 = (value >> 32) as u8;
    let d4 = (value >> 24) as u8;
    let d5 = (value >> 16) as u8;
    let d6 = (value >> 8) as u8;
    let d7 = value as u8;
    assert(value == d0 as u64 * 0x100_0000_0000_0000 + d1 as u64 * 0x1_0000_0000_0000 + d2 as u64
        * 0x100_0000_0000 + d3 as u64 * 0x1_0000_0000 + d4 as u64 * 0x100_0000 + d5 as u64
        * 0x1_0000 + d6 as u64 * 0x100 + d7 as u64) by (bit_vector)
        requires
            d0 == (value >> 56) as u8,
            d1 == (value >> 48) as u8,
            d2 == (value >> 40) as u8,
            d3 == (value >> 32) as u8,
            d4 == (value >> 24) as u8,
            d5 == (value >> 16) as u8,
            d6 == (value >> 8) as u8,
            d7 == value as u8,
    ;
}

/// Keys are listed by their numbers, the smaller first.
pub proof fn keys_are_ordered_by_their_numbers(
    a: FileLinkId,
    b: FileLinkId,
    x: MutationSeq,
    y: MutationSeq,
    p: FileKey,
    q: FileKey,
    d: DocumentId,
    e: DocumentId,
)
    ensures
        key_rank::<FileLinkId>()(a) < key_rank::<FileLinkId>()(b) <==> a.value < b.value,
        key_rank::<DocumentId>()(d) < key_rank::<DocumentId>()(e) <==> d.value < e.value,
        key_rank::<MutationSeq>()(x) < key_rank::<MutationSeq>()(y) <==> x.0 < y.0,
        key_rank::<FileKey>()(p) < key_rank::<FileKey>()(q) <==> p.volume_id.value
            < q.volume_id.value || (p.volume_id == q.volume_id && p.file_id.value
            < q.file_id.value),
{
}

/// A full page of the oldest stale rows takes those that were seen longest ago first.
pub proof fn the_oldest_rows_are_swept_first(a: (u64, u128), b: (u64, u128))
    ensures
        pair_rank()(a) < pair_rank()(b) <==> a.0 < b.0 || (a.0 == b.0 && a.1 < b.1),
{
}

} // verus!
