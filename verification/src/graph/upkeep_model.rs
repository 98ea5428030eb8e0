//! Queries and maintenance of the graph as functions on its model.

use vstd::prelude::*;

use crate::catalog::{CatalogIdentity, DocumentModel, FileMetadata};
use crate::graph::domain::{GraphIntegrityIssue, ProjectionRefreshSummary};
use crate::graph::error::ErrorModel;
use crate::graph::fingerprint::document_fingerprint;
use crate::graph::model::{
    column_max, document_of, effective_availability, extension_of, is_linked, sync_links,
    ConsumerRow, DocumentRowModel, GraphModel, PathJobRow, PayloadModel, ProjectionOutboxMode,
    VolumeJobRow,
};
use crate::graph::soundness::{lemma_sync_links, prefix_set, sound};
use crate::ids::{DocumentId, DocumentVersion, FileKey, FileLinkId, JobId, MutationSeq, VolumeId};
use crate::order::{first_page, is_page};
use crate::table::key_rank;

verus! {

/// The sequences in the outbox after a position.
pub open spec fn outbox_after(m: GraphModel, after: u64) -> spec_fn(MutationSeq) -> bool {
    |s: MutationSeq| m.outbox.dom().contains(s) && s.0 > after
}

/// The sequences in the outbox up to a position.
pub open spec fn outbox_through(m: GraphModel, safe: u64) -> spec_fn(MutationSeq) -> bool {
    |s: MutationSeq| m.outbox.dom().contains(s) && s.0 <= safe
}

/// The desired document under an identity, as it is read back.
pub open spec fn desired_document(m: GraphModel, id: DocumentId) -> DocumentModel {
    let row = m.documents[id];
    match row.payload {
        PayloadModel::Legacy { document } => document,
        PayloadModel::Compact { path, .. } => {
            let name = m.links[row.file_link_id].name;
            let metadata = m.objects[row.object_key].metadata;
            DocumentModel {
                identity: CatalogIdentity {
                    object_key: row.object_key,
                    file_link_id: row.file_link_id,
                    document_id: id,
                },
                document_version: DocumentVersion(row.version),
                name,
                resolved_path: path,
                extension: extension_of(name),
                metadata: FileMetadata {
                    availability: effective_availability(
                        metadata.availability,
                        m.volumes[row.object_key.volume_id].state,
                    ),
                    ..metadata
                },
            }
        },
    }
}

/// The documents after a cursor, or all of them.
pub open spec fn documents_after(m: GraphModel, after: Option<DocumentId>) -> spec_fn(
    DocumentId,
) -> bool {
    |d: DocumentId|
        m.documents.dom().contains(d) && (after matches Some(cursor) ==> d.value > cursor.value)
}

/// The documents of a volume.
pub open spec fn documents_on(m: GraphModel, volume: VolumeId) -> spec_fn(DocumentId) -> bool {
    |d: DocumentId|
        m.documents.dom().contains(d) && m.documents[d].object_key.volume_id == volume
}

/// The documents that still hold a complete legacy payload.
pub open spec fn legacy_documents(m: GraphModel) -> spec_fn(DocumentId) -> bool {
    |d: DocumentId| m.documents.dom().contains(d) && m.documents[d].payload is Legacy
}

/// The compact form of a document row.
pub open spec fn compacted(row: DocumentRowModel) -> DocumentRowModel {
    match row.payload {
        PayloadModel::Legacy { document } => DocumentRowModel {
            payload: PayloadModel::Compact {
                path: document.resolved_path,
                fingerprint: document_fingerprint(document),
            },
            ..row
        },
        PayloadModel::Compact { .. } => row,
    }
}

/// The graph with the first `n` of the documents in compact form.
pub open spec fn compact_documents(m: GraphModel, page: Seq<DocumentId>, n: nat) -> GraphModel
    decreases n,
{
    if n == 0 {
        m
    } else {
        let before = compact_documents(m, page, (n - 1) as nat);
        let id = page[n - 1];
        GraphModel {
            documents: before.documents.insert(id, compacted(before.documents[id])),
            ..before
        }
    }
}

/// Records how far a consumer has come.
pub open spec fn acknowledge(
    m: GraphModel,
    consumer: Seq<char>,
    last_sequence: u64,
    index_generation: u64,
) -> Result<GraphModel, ErrorModel> {
    if last_sequence > m.issued {
        Err(
            ErrorModel::Invariant(
                "projector checkpoint cannot advance beyond durable outbox"@,
            ),
        )
    } else if m.consumers.dom().contains(consumer) && last_sequence
        < m.consumers[consumer].last_sequence {
        Err(ErrorModel::Invariant("projector checkpoint cannot move backwards"@))
    } else if index_generation > column_max() {
        Err(ErrorModel::NumericRange("index generation"@))
    } else {
        Ok(
            GraphModel {
                consumers: m.consumers.insert(
                    consumer,
                    ConsumerRow { last_sequence, index_generation },
                ),
                ..m
            },
        )
    }
}

/// The sequence that every consumer has taken over is `least`.
pub open spec fn is_least_acknowledged(m: GraphModel, least: u64) -> bool {
    &&& exists|c: Seq<char>| #[trigger]
        m.consumers.dom().contains(c) && m.consumers[c].last_sequence == least
    &&& forall|c: Seq<char>| #[trigger]
        m.consumers.dom().contains(c) ==> least <= m.consumers[c].last_sequence
}

/// The last sequence that may be discarded; none if nothing may be.
pub open spec fn safe_through(m: GraphModel, allow_without_consumers: bool) -> Option<u64> {
    if m.consumers.dom() != Set::<Seq<char>>::empty() {
        Some(choose|least: u64| is_least_acknowledged(m, least))
    } else if allow_without_consumers && m.issued > 0 {
        Some(m.issued)
    } else {
        None
    }
}

/// The graph without the given outbox rows.
pub open spec fn without_outbox(m: GraphModel, gone: Set<MutationSeq>) -> GraphModel {
    GraphModel { outbox: m.outbox.remove_keys(gone), ..m }
}

/// The pending refresh jobs.
pub open spec fn pending_path_jobs(m: GraphModel) -> spec_fn(JobId) -> bool {
    |j: JobId| m.path_jobs.dom().contains(j) && m.path_jobs[j].pending
}

/// The volumes with a pending refresh.
pub open spec fn pending_volume_jobs(m: GraphModel) -> spec_fn(VolumeId) -> bool {
    |v: VolumeId| m.volume_jobs.dom().contains(v) && m.volume_jobs[v].pending
}

/// The links of a volume after a cursor.
pub open spec fn links_after(m: GraphModel, volume: VolumeId, cursor: Option<FileLinkId>) -> spec_fn(
    FileLinkId,
) -> bool {
    |l: FileLinkId|
        m.links.dom().contains(l) && m.links[l].object_key.volume_id == volume && (
        cursor matches Some(c) ==> l.value > c.value)
}

/// The links with a document on a volume, after a cursor.
pub open spec fn document_links_after(
    m: GraphModel,
    volume: VolumeId,
    cursor: Option<FileLinkId>,
) -> spec_fn(FileLinkId) -> bool {
    |l: FileLinkId|
        m.documents.dom().contains(document_of(l)) && m.documents[document_of(
            l,
        )].object_key.volume_id == volume && (cursor matches Some(c) ==> l.value > c.value)
}

/// Nothing was refreshed.
pub open spec fn no_refresh() -> ProjectionRefreshSummary {
    ProjectionRefreshSummary {
        links_scanned: 0,
        outbox_mutations_appended: 0,
        job_completed: false,
    }
}

/// One bounded step of one path refresh, over a page of links.
pub open spec fn refresh_paths_step(
    m: GraphModel,
    job: JobId,
    page: Seq<FileLinkId>,
    limit: nat,
) -> Result<(GraphModel, ProjectionRefreshSummary), ErrorModel> {
    let row = m.path_jobs[job];
    let generation = m.volumes[row.root_object.volume_id].generation;
    match sync_links(m, page, generation, ProjectionOutboxMode::Durable, page.len()) {
        Err(e) => Err(e),
        Ok((synced, appended)) => {
            let completed = page.len() < limit;
            let next = if completed {
                PathJobRow { pending: false, ..row }
            } else {
                PathJobRow { cursor: Some(page.last()), ..row }
            };
            Ok(
                (
                    GraphModel { path_jobs: synced.path_jobs.insert(job, next), ..synced },
                    ProjectionRefreshSummary {
                        links_scanned: page.len() as u64,
                        outbox_mutations_appended: appended as u64,
                        job_completed: completed,
                    },
                ),
            )
        },
    }
}

/// One bounded step of the oldest pending path refresh.
pub open spec fn refresh_paths(m: GraphModel, limit: nat) -> Result<
    (GraphModel, ProjectionRefreshSummary),
    ErrorModel,
> {
    let jobs = first_page(pending_path_jobs(m), key_rank::<JobId>(), 1);
    if limit == 0 || jobs.len() == 0 {
        Ok((m, no_refresh()))
    } else {
        let row = m.path_jobs[jobs[0]];
        refresh_paths_step(
            m,
            jobs[0],
            first_page(
                links_after(m, row.root_object.volume_id, row.cursor),
                key_rank::<FileLinkId>(),
                limit,
            ),
            limit,
        )
    }
}

/// What a step of a path refresh takes is the oldest job, if there is one, and the next links of
/// its volume, in order and at most as many as the limit allows.
pub open spec fn refreshes_a_path_page(m: GraphModel, limit: nat) -> bool {
    let jobs = first_page(pending_path_jobs(m), key_rank::<JobId>(), 1);
    &&& is_page(jobs, pending_path_jobs(m), key_rank::<JobId>(), 1)
    &&& jobs.len() > 0 ==> {
        let row = m.path_jobs[jobs[0]];
        let eligible = links_after(m, row.root_object.volume_id, row.cursor);
        is_page(
            first_page(eligible, key_rank::<FileLinkId>(), limit),
            eligible,
            key_rank::<FileLinkId>(),
            limit,
        )
    }
}

/// One bounded step of a volume refresh, over a page of links.
pub open spec fn refresh_volume_step(
    m: GraphModel,
    volume: VolumeId,
    page: Seq<FileLinkId>,
    limit: nat,
) -> Result<(GraphModel, ProjectionRefreshSummary), ErrorModel> {
    let row = m.volume_jobs[volume];
    let generation = m.volumes[volume].generation;
    match sync_links(m, page, generation, ProjectionOutboxMode::Durable, page.len()) {
        Err(e) => Err(e),
        Ok((synced, appended)) => {
            let completed = page.len() < limit;
            let next = if completed {
                VolumeJobRow { pending: false, ..row }
            } else {
                VolumeJobRow { cursor: Some(page.last()), ..row }
            };
            Ok(
                (
                    GraphModel { volume_jobs: synced.volume_jobs.insert(volume, next), ..synced },
                    ProjectionRefreshSummary {
                        links_scanned: page.len() as u64,
                        outbox_mutations_appended: appended as u64,
                        job_completed: completed,
                    },
                ),
            )
        },
    }
}

/// One bounded step of the first pending volume refresh.
pub open spec fn refresh_volume(m: GraphModel, limit: nat) -> Result<
    (GraphModel, ProjectionRefreshSummary),
    ErrorModel,
> {
    let volumes = first_page(pending_volume_jobs(m), key_rank::<VolumeId>(), 1);
    if limit == 0 || volumes.len() == 0 {
        Ok((m, no_refresh()))
    } else {
        refresh_volume_step(
            m,
            volumes[0],
            first_page(
                document_links_after(m, volumes[0], m.volume_jobs[volumes[0]].cursor),
                key_rank::<FileLinkId>(),
                limit,
            ),
            limit,
        )
    }
}

/// What a step of a volume refresh takes is the first pending volume, if there is one, and its
/// next links with a document, in order and at most as many as the limit allows.
pub open spec fn refreshes_a_volume_page(m: GraphModel, limit: nat) -> bool {
    let volumes = first_page(pending_volume_jobs(m), key_rank::<VolumeId>(), 1);
    &&& is_page(volumes, pending_volume_jobs(m), key_rank::<VolumeId>(), 1)
    &&& volumes.len() > 0 ==> {
        let eligible = document_links_after(m, volumes[0], m.volume_jobs[volumes[0]].cursor);
        is_page(
            first_page(eligible, key_rank::<FileLinkId>(), limit),
            eligible,
            key_rank::<FileLinkId>(),
            limit,
        )
    }
}

/// The live objects.
pub open spec fn live_objects(m: GraphModel) -> spec_fn(FileKey) -> bool {
    |k: FileKey| m.objects.dom().contains(k) && !m.objects[k].tombstoned
}

/// The tombstoned objects.
pub open spec fn tombstoned_objects(m: GraphModel) -> spec_fn(FileKey) -> bool {
    |k: FileKey| m.objects.dom().contains(k) && m.objects[k].tombstoned
}

/// The live regular files.
pub open spec fn live_files(m: GraphModel) -> spec_fn(FileKey) -> bool {
    |k: FileKey|
        m.objects.dom().contains(k) && !m.objects[k].tombstoned && m.objects[k].metadata.kind
            == crate::catalog::FileKind::File
}

/// The sizes of the objects together.
pub open spec fn total_size(m: GraphModel, keys: Seq<FileKey>) -> nat
    decreases keys.len(),
{
    if keys.len() == 0 {
        0
    } else {
        total_size(m, keys.drop_last()) + m.objects[keys.last()].metadata.size as nat
    }
}

/// The number of keys that satisfy a condition.
pub open spec fn how_many<K>(eligible: spec_fn(K) -> bool) -> nat {
    Set::new(eligible).len()
}

/// The live objects that no link names.
pub open spec fn orphans(m: GraphModel) -> spec_fn(FileKey) -> bool {
    |k: FileKey| m.objects.dom().contains(k) && !m.objects[k].tombstoned && !is_linked(m, k)
}

/// The links whose parent is not a known object.
pub open spec fn parentless(m: GraphModel) -> spec_fn(FileLinkId) -> bool {
    |l: FileLinkId|
        m.links.dom().contains(l) && (m.links[l].parent_key matches Some(p)
            && !m.objects.dom().contains(p))
}

/// Every integrity issue: objects first, then links, each in ascending order.
pub open spec fn all_issues(
    m: GraphModel,
    objects: Seq<FileKey>,
    links: Seq<FileLinkId>,
) -> Seq<GraphIntegrityIssue> {
    Seq::new(
        objects.len(),
        |i: int| GraphIntegrityIssue::OrphanObject { object_key: objects[i] },
    ) + Seq::new(
        links.len(),
        |i: int|
            GraphIntegrityIssue::MissingParent {
                file_link_id: links[i],
                parent_key: m.links[links[i]].parent_key->0,
            },
    )
}

/// Acknowledging keeps the graph sound.
pub proof fn lemma_acknowledge(
    m: GraphModel,
    consumer: Seq<char>,
    last_sequence: u64,
    index_generation: u64,
)
    requires
        sound(m),
    ensures
        acknowledge(m, consumer, last_sequence, index_generation) matches Ok(next) ==> sound(next),
{
}

/// Discarding the oldest outbox rows keeps the graph sound.
pub proof fn lemma_prune(m: GraphModel, page: Seq<MutationSeq>, safe: u64, limit: nat)
    requires
        sound(m),
        is_page(page, outbox_through(m, safe), key_rank::<MutationSeq>(), limit),
    ensures
        sound(without_outbox(m, page.to_set())),
{
    let next = without_outbox(m, page.to_set());
    let eligible = outbox_through(m, safe);
    let rank = key_rank::<MutationSeq>();
    assert forall|s: MutationSeq, t: MutationSeq| #[trigger]
        next.outbox.dom().contains(s) && s.0 <= t.0 <= next.issued implies #[trigger] next.outbox.dom().contains(
        t,
    ) by {
        assert(m.outbox.dom().contains(s));
        assert(m.outbox.dom().contains(t));
        if page.to_set().contains(t) {
            let i = page.index_of(t);
            assert(page[i] == t);
            assert(eligible(page[i]));
            assert(eligible(s));
            assert(!page.contains(s));
            assert(rank(page[i]) < rank(s));
        }
    }
}

/// Compacting documents keeps the graph sound.
pub proof fn lemma_compact(m: GraphModel, page: Seq<DocumentId>, n: nat)
    requires
        sound(m),
        n <= page.len(),
        forall|i: int| 0 <= i < page.len() ==> m.documents.dom().contains(#[trigger] page[i]),
    ensures
        ({
            let next = compact_documents(m, page, n);
            &&& sound(next)
            &&& next == (GraphModel { documents: next.documents, ..m })
            &&& next.documents.dom() == m.documents.dom()
        }),
    decreases n,
{
    if n > 0 {
        lemma_compact(m, page, (n - 1) as nat);
        let before = compact_documents(m, page, (n - 1) as nat);
        let next = compact_documents(m, page, n);
        assert(m.documents.dom().contains(page[n - 1]));
        assert(next.documents.dom() =~= m.documents.dom());
    }
}

/// A refresh step of a queued path job keeps the graph sound.
pub proof fn lemma_refresh_paths_step(
    m: GraphModel,
    job: JobId,
    page: Seq<FileLinkId>,
    limit: nat,
)
    requires
        sound(m),
        m.path_jobs.dom().contains(job),
    ensures
        refresh_paths_step(m, job, page, limit) matches Ok((next, s)) ==> sound(next) && (page.len()
            <= u64::MAX ==> s.outbox_mutations_appended <= page.len()),
{
    let row = m.path_jobs[job];
    let volume = row.root_object.volume_id;
    assert(m.objects.dom().contains(row.root_object));
    let generation = m.volumes[volume].generation;
    lemma_sync_links(
        m,
        page,
        generation,
        ProjectionOutboxMode::Durable,
        page.len(),
        Set::empty(),
    );
    assert(Set::<FileLinkId>::empty().difference(prefix_set(page, page.len())) =~= Set::empty());
    if let Ok((next, s)) = refresh_paths_step(m, job, page, limit) {
        assert(next.path_jobs.dom() =~= m.path_jobs.dom());
    }
}

/// A refresh step of a queued volume job keeps the graph sound.
pub proof fn lemma_refresh_volume_step(
    m: GraphModel,
    volume: VolumeId,
    page: Seq<FileLinkId>,
    limit: nat,
)
    requires
        sound(m),
        m.volume_jobs.dom().contains(volume),
    ensures
        refresh_volume_step(m, volume, page, limit) matches Ok((next, s)) ==> sound(next) && (
        page.len() <= u64::MAX ==> s.outbox_mutations_appended <= page.len()),
{
    let generation = m.volumes[volume].generation;
    lemma_sync_links(
        m,
        page,
        generation,
        ProjectionOutboxMode::Durable,
        page.len(),
        Set::empty(),
    );
    assert(Set::<FileLinkId>::empty().difference(prefix_set(page, page.len())) =~= Set::empty());
    if let Ok((next, s)) = refresh_volume_step(m, volume, page, limit) {
        assert(next.volume_jobs.dom() =~= m.volume_jobs.dom());
    }
}

/// A listing without repetition has as many entries as there are eligible keys.
pub proof fn lemma_how_many<K>(
    all: Seq<K>,
    eligible: spec_fn(K) -> bool,
    rank: spec_fn(K) -> int,
)
    requires
        crate::order::is_listing(all, eligible, rank),
    ensures
        how_many(eligible) == all.len(),
{
    assert(all.no_duplicates()) by {
        assert forall|i: int, j: int| 0 <= i < all.len() && 0 <= j < all.len() && i != j implies
            all[i] != all[j] by {
            if i < j {
                assert(rank(all[i]) < rank(all[j]));
            } else {
                assert(rank(all[j]) < rank(all[i]));
            }
        }
    }
    all.unique_seq_to_set();
    assert(all.to_set() =~= Set::new(eligible)) by {
        assert forall|k: K| all.to_set().contains(k) == Set::new(eligible).contains(k) by {
            if all.contains(k) {
                let i = all.index_of(k);
                assert(eligible(all[i]));
            }
        }
    }
}

} // verus!
