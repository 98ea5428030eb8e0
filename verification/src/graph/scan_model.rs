//! Authoritative scans as functions on the graph: begin, pages, staging, and bounded sweeps.

use vstd::prelude::*;

use crate::catalog::{CheckpointModel, DescriptorModel, FilesystemEvent, ReconciliationReason};
use crate::graph::domain::{
    mutations_of, ApplySummary, BatchModel, ObservationFinalizeSummary, ObservationScanMode,
    ObservationScanPhase, ObservationSession, VolumeState,
};
use crate::graph::error::ErrorModel;
use crate::graph::model::{
    apply_batch, column_max, enqueue_volume_refresh, generation_of, is_linked, names_object,
    remove_link, sync_projection, upsert_volume, with_generation, with_state, with_tombstone,
    GraphModel, ProjectionOutboxMode, SessionModel,
};
use crate::graph::soundness::{
    documents_current, lemma_enqueue_volume_refresh, lemma_remove_link, lemma_sync_projection,
    lemma_upsert_volume, lemma_with_generation, lemma_with_state, rows_sound, sound,
};
use crate::ids::{FileId128, FileKey, FileLinkId, VolumeId};
use crate::order::{first_page, is_page};
use crate::selection::pair_rank;

verus! {

/// A number as eight bytes, most significant first.
pub open spec fn big_endian(value: u64) -> Seq<u8> {
    seq![
        (value >> 56) as u8,
        (value >> 48) as u8,
        (value >> 40) as u8,
        (value >> 32) as u8,
        (value >> 24) as u8,
        (value >> 16) as u8,
        (value >> 8) as u8,
        value as u8,
    ]
}

/// The checkpoint that stands for a scan in progress.
pub open spec fn scan_checkpoint(volume: VolumeId, scan_generation: u64) -> CheckpointModel {
    CheckpointModel {
        provider_id: "localsearch-observation-scan"@,
        format_version: 1,
        volume_id: volume,
        opaque: big_endian(scan_generation),
    }
}

/// Starts or restarts a scan of a volume.
pub open spec fn begin_scan(
    m: GraphModel,
    descriptor: DescriptorModel,
    mode: ObservationScanMode,
    reason: ReconciliationReason,
) -> Result<(GraphModel, ObservationSession), ErrorModel> {
    let volume = descriptor.volume_id;
    let current = generation_of(m, volume);
    if current >= column_max() {
        Err(ErrorModel::NumericRange("observation scan generation"@))
    } else {
        let generation = (current + 1) as u64;
        let described = upsert_volume(m, descriptor);
        let marked = with_state(
            described,
            volume,
            VolumeState::NeedsReconciliation,
            Some(reason),
        );
        let queued = enqueue_volume_refresh(
            with_generation(marked, volume, generation),
            volume,
            generation,
        );
        Ok(
            (
                GraphModel {
                    sessions: queued.sessions.insert(
                        volume,
                        SessionModel {
                            scan_generation: generation,
                            mode,
                            phase: ObservationScanPhase::Scanning,
                            staged: None,
                        },
                    ),
                    ..queued
                },
                ObservationSession {
                    volume_id: volume,
                    scan_generation: generation,
                    mode,
                    phase: ObservationScanPhase::Scanning,
                },
            ),
        )
    }
}

/// Takes up one page of a scan.
pub open spec fn scan_page(m: GraphModel, volume: VolumeId, events: Seq<FilesystemEvent>) -> Result<
    (GraphModel, ApplySummary),
    ErrorModel,
> {
    if !m.sessions.dom().contains(volume) {
        Err(ErrorModel::Invariant("observation scan page has no durable session"@))
    } else if m.sessions[volume].phase != ObservationScanPhase::Scanning {
        Err(
            ErrorModel::Invariant(
                "observation scan page arrived after finalization started"@,
            ),
        )
    } else if events.len() == 0 {
        Ok(
            (
                m,
                ApplySummary {
                    mutations: 0,
                    generation: m.sessions[volume].scan_generation,
                    refresh_jobs_enqueued: 0,
                    outbox_mutations_appended: 0,
                },
            ),
        )
    } else {
        apply_batch(
            m,
            BatchModel {
                volume_id: volume,
                checkpoint: scan_checkpoint(volume, m.sessions[volume].scan_generation),
                mutations: mutations_of(events),
            },
            ProjectionOutboxMode::Durable,
        )
    }
}

/// Stages the checkpoint that the end of the sweeps will make current.
pub open spec fn stage_checkpoint(m: GraphModel, volume: VolumeId, checkpoint: CheckpointModel) -> Result<
    GraphModel,
    ErrorModel,
> {
    if checkpoint.volume_id != volume {
        Err(ErrorModel::InvalidBatch("observation checkpoint crosses volumes"@))
    } else if !m.sessions.dom().contains(volume) || m.sessions[volume].phase
        != ObservationScanPhase::Scanning {
        Err(ErrorModel::Invariant("observation checkpoint has no scanning session"@))
    } else {
        Ok(
            GraphModel {
                sessions: m.sessions.insert(
                    volume,
                    SessionModel {
                        phase: ObservationScanPhase::SweepingLinks,
                        staged: Some(checkpoint),
                        ..m.sessions[volume]
                    },
                ),
                ..m
            },
        )
    }
}

/// The pair is the last observation and the identity of a link older than the scan.
pub open spec fn stale_links(m: GraphModel, volume: VolumeId, cutoff: u64) -> spec_fn(
    (u64, u128),
) -> bool {
    |p: (u64, u128)|
        {
            let l = FileLinkId { value: p.1 };
            m.links.dom().contains(l) && m.links[l].object_key.volume_id == volume
                && m.links[l].observed == p.0 && p.0 < cutoff
        }
}

/// The pair is the last observation and the identity of a live, unlinked object older than the
/// scan.
pub open spec fn stale_objects(m: GraphModel, volume: VolumeId, cutoff: u64) -> spec_fn(
    (u64, u128),
) -> bool {
    |p: (u64, u128)|
        {
            let k = FileKey { volume_id: volume, file_id: FileId128 { value: p.1 } };
            m.objects.dom().contains(k) && !m.objects[k].tombstoned && m.objects[k].observed == p.0
                && p.0 < cutoff && !is_linked(m, k)
        }
}

/// The graph after the first `n` stale links are removed, with their documents.
pub open spec fn sweep_links(
    m: GraphModel,
    page: Seq<(u64, u128)>,
    generation: u64,
    n: nat,
) -> Result<GraphModel, ErrorModel>
    decreases n,
{
    if n == 0 {
        Ok(m)
    } else {
        let l = FileLinkId { value: page[n - 1].1 };
        match sweep_links(m, page, generation, (n - 1) as nat) {
            Err(e) => Err(e),
            Ok(before) => match remove_link(
                before,
                l,
                m.links[l].object_key,
                generation,
                false,
            ) {
                Err(e) => Err(e),
                Ok((removed, _)) => match sync_projection(
                    removed,
                    l,
                    generation,
                    ProjectionOutboxMode::Durable,
                ) {
                    Err(e) => Err(e),
                    Ok((after, _)) => Ok(after),
                },
            },
        }
    }
}

/// The graph after the first `n` stale objects are tombstoned.
pub open spec fn sweep_objects(
    m: GraphModel,
    volume: VolumeId,
    page: Seq<(u64, u128)>,
    n: nat,
) -> GraphModel
    decreases n,
{
    if n == 0 {
        m
    } else {
        with_tombstone(
            sweep_objects(m, volume, page, (n - 1) as nat),
            FileKey { volume_id: volume, file_id: FileId128 { value: page[n - 1].1 } },
            true,
        )
    }
}

/// Makes the staged checkpoint current, brings the volume online and closes the session.
pub open spec fn activate(
    m: GraphModel,
    volume: VolumeId,
    generation: u64,
    staged: CheckpointModel,
) -> GraphModel {
    let saved = GraphModel { checkpoints: m.checkpoints.insert(volume, staged), ..m };
    let online = with_generation(
        with_state(saved, volume, VolumeState::Online, None),
        volume,
        generation,
    );
    let queued = enqueue_volume_refresh(online, volume, generation);
    GraphModel { sessions: queued.sessions.remove(volume), ..queued }
}

/// Enters the last phase of a session.
pub open spec fn begin_object_sweep(m: GraphModel, volume: VolumeId) -> GraphModel {
    GraphModel {
        sessions: m.sessions.insert(
            volume,
            SessionModel { phase: ObservationScanPhase::SweepingObjects, ..m.sessions[volume] },
        ),
        ..m
    }
}

/// One bounded step of the link sweep.
pub open spec fn finalize_links(
    m: GraphModel,
    volume: VolumeId,
    generation: u64,
    page: Seq<(u64, u128)>,
    limit: nat,
) -> Result<(GraphModel, ObservationFinalizeSummary), ErrorModel> {
    match sweep_links(m, page, generation, page.len()) {
        Err(e) => Err(e),
        Ok(swept) => {
            let moved = if page.len() < limit {
                begin_object_sweep(swept, volume)
            } else {
                swept
            };
            Ok(
                (
                    with_generation(moved, volume, generation),
                    ObservationFinalizeSummary {
                        stale_links_removed: page.len() as u64,
                        stale_objects_tombstoned: 0,
                        completed: false,
                    },
                ),
            )
        },
    }
}

/// One bounded step of the object sweep; the last one completes the scan.
pub open spec fn finalize_objects(
    m: GraphModel,
    volume: VolumeId,
    generation: u64,
    page: Seq<(u64, u128)>,
    limit: nat,
) -> (GraphModel, ObservationFinalizeSummary) {
    let swept = sweep_objects(m, volume, page, page.len());
    let completed = page.len() < limit;
    let next = if completed {
        activate(swept, volume, generation, m.sessions[volume].staged->0)
    } else {
        with_generation(swept, volume, generation)
    };
    (
        next,
        ObservationFinalizeSummary {
            stale_links_removed: 0,
            stale_objects_tombstoned: page.len() as u64,
            completed,
        },
    )
}

/// One bounded step of the sweeps that end a scan.
pub open spec fn finalize_scan(m: GraphModel, volume: VolumeId, limit: nat) -> Result<
    (GraphModel, ObservationFinalizeSummary),
    ErrorModel,
> {
    if limit == 0 {
        Ok(
            (
                m,
                ObservationFinalizeSummary {
                    stale_links_removed: 0,
                    stale_objects_tombstoned: 0,
                    completed: false,
                },
            ),
        )
    } else if !m.sessions.dom().contains(volume) {
        Err(ErrorModel::Invariant("observation finalization has no durable session"@))
    } else if m.sessions[volume].phase == ObservationScanPhase::Scanning {
        Err(
            ErrorModel::Invariant(
                "observation finalization started before provider checkpoint"@,
            ),
        )
    } else if m.volumes[volume].generation >= column_max() {
        Err(ErrorModel::NumericRange("observation finalization generation"@))
    } else {
        let generation = (m.volumes[volume].generation + 1) as u64;
        let cutoff = m.sessions[volume].scan_generation;
        if m.sessions[volume].phase == ObservationScanPhase::SweepingLinks {
            finalize_links(
                m,
                volume,
                generation,
                first_page(stale_links(m, volume, cutoff), pair_rank(), limit),
                limit,
            )
        } else {
            Ok(
                finalize_objects(
                    m,
                    volume,
                    generation,
                    first_page(stale_objects(m, volume, cutoff), pair_rank(), limit),
                    limit,
                ),
            )
        }
    }
}

/// What a step of a sweep takes are the first stale rows, in order and at most as many as the
/// limit allows.
pub open spec fn sweeps_a_page(m: GraphModel, volume: VolumeId, limit: nat) -> bool {
    let cutoff = m.sessions[volume].scan_generation;
    if m.sessions[volume].phase == ObservationScanPhase::SweepingLinks {
        is_page(
            first_page(stale_links(m, volume, cutoff), pair_rank(), limit),
            stale_links(m, volume, cutoff),
            pair_rank(),
            limit,
        )
    } else {
        is_page(
            first_page(stale_objects(m, volume, cutoff), pair_rank(), limit),
            stale_objects(m, volume, cutoff),
            pair_rank(),
            limit,
        )
    }
}

/// Beginning a scan keeps the graph sound.
pub proof fn lemma_begin_scan(
    m: GraphModel,
    descriptor: DescriptorModel,
    mode: ObservationScanMode,
    reason: ReconciliationReason,
)
    requires
        sound(m),
    ensures
        begin_scan(m, descriptor, mode, reason) matches Ok((next, s)) ==> sound(next),
{
    let volume = descriptor.volume_id;
    if let Ok((next, s)) = begin_scan(m, descriptor, mode, reason) {
        let described = upsert_volume(m, descriptor);
        lemma_upsert_volume(m, descriptor);
        lemma_with_state(described, volume, VolumeState::NeedsReconciliation, Some(reason));
        let marked = with_state(
            described,
            volume,
            VolumeState::NeedsReconciliation,
            Some(reason),
        );
        lemma_with_generation(marked, volume, s.scan_generation);
        lemma_enqueue_volume_refresh(
            with_generation(marked, volume, s.scan_generation),
            volume,
            s.scan_generation,
        );
        assert(next.volumes.dom().contains(volume));
    }
}

/// Staging a checkpoint keeps the graph sound.
pub proof fn lemma_stage_checkpoint(m: GraphModel, volume: VolumeId, checkpoint: CheckpointModel)
    requires
        sound(m),
    ensures
        stage_checkpoint(m, volume, checkpoint) matches Ok(next) ==> sound(next),
{
}

/// Sweeping stale links keeps the graph sound, and no document outlives its link.
pub proof fn lemma_sweep_links(
    m: GraphModel,
    page: Seq<(u64, u128)>,
    generation: u64,
    n: nat,
)
    requires
        sound(m),
        generation <= column_max(),
        n <= page.len(),
    ensures
        sweep_links(m, page, generation, n) matches Ok(next) ==> {
            &&& sound(next)
            &&& next.sessions == m.sessions
            &&& next.volumes == m.volumes
            &&& next.checkpoints == m.checkpoints
        },
    decreases n,
{
    if n > 0 {
        lemma_sweep_links(m, page, generation, (n - 1) as nat);
        let l = FileLinkId { value: page[n - 1].1 };
        if let Ok(before) = sweep_links(m, page, generation, (n - 1) as nat) {
            let expected = m.links[l].object_key;
            lemma_remove_link(before, l, expected, generation, false);
            if let Ok((removed, c)) = remove_link(before, l, expected, generation, false) {
                let pending = Set::<FileLinkId>::empty().insert(l);
                assert(documents_current(removed, pending));
                lemma_sync_projection(
                    removed,
                    l,
                    generation,
                    ProjectionOutboxMode::Durable,
                    pending,
                );
                assert(pending.remove(l) =~= Set::empty());
            }
        }
    }
}

/// Tombstoning unlinked objects keeps the graph sound.
pub proof fn lemma_sweep_objects(
    m: GraphModel,
    volume: VolumeId,
    cutoff: u64,
    page: Seq<(u64, u128)>,
    n: nat,
)
    requires
        sound(m),
        n <= page.len(),
        forall|i: int|
            0 <= i < page.len() ==> stale_objects(m, volume, cutoff)(#[trigger] page[i]),
    ensures
        ({
            let next = sweep_objects(m, volume, page, n);
            &&& sound(next)
            &&& next == (GraphModel { objects: next.objects, ..m })
            &&& next.objects.dom() == m.objects.dom()
        }),
    decreases n,
{
    if n > 0 {
        lemma_sweep_objects(m, volume, cutoff, page, (n - 1) as nat);
        let before = sweep_objects(m, volume, page, (n - 1) as nat);
        let k = FileKey { volume_id: volume, file_id: FileId128 { value: page[n - 1].1 } };
        assert(stale_objects(m, volume, cutoff)(page[n - 1]));
        let next = with_tombstone(before, k, true);
        assert(next.objects.dom() =~= m.objects.dom());
        assert forall|l: FileLinkId| #[trigger] next.links.dom().contains(l) implies
            next.objects.dom().contains(next.links[l].object_key)
                && !next.objects[next.links[l].object_key].tombstoned by {
            assert(before.links.dom().contains(l));
            if next.links[l].object_key == k {
                assert(names_object(m, l, k));
            }
        }
    }
}

/// Completing a scan keeps the graph sound.
pub proof fn lemma_activate(
    m: GraphModel,
    volume: VolumeId,
    generation: u64,
    staged: CheckpointModel,
)
    requires
        sound(m),
        generation <= column_max(),
        m.volumes.dom().contains(volume),
        staged.volume_id == volume,
    ensures
        sound(activate(m, volume, generation, staged)),
{
    let saved = GraphModel { checkpoints: m.checkpoints.insert(volume, staged), ..m };
    assert(rows_sound(saved));
    lemma_with_state(saved, volume, VolumeState::Online, None);
    let online = with_state(saved, volume, VolumeState::Online, None);
    lemma_with_generation(online, volume, generation);
    lemma_enqueue_volume_refresh(
        with_generation(online, volume, generation),
        volume,
        generation,
    );
}

} // verus!
