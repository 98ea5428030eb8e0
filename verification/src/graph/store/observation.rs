//! Authoritative scans.

use vstd::prelude::*;

use crate::catalog::{FilesystemEvent, ProviderCheckpoint, ReconciliationReason, VolumeDescriptor};
use crate::graph::domain::{
    ApplySummary, GraphMutationBatch, ObservationFinalizeSummary, ObservationScanMode,
    ObservationScanPhase, ObservationSession, VolumeState,
};
use crate::graph::error::{invalid_batch, invariant_error, numeric_range, ErrorModel, GraphResult};
use crate::graph::model::{column_max, GraphModel, ProjectionOutboxMode};
use crate::graph::rows::SessionRow;
use crate::graph::scan_model::{
    activate, begin_object_sweep, begin_scan, big_endian, finalize_scan, lemma_activate,
    lemma_begin_scan, lemma_stage_checkpoint, lemma_sweep_links, lemma_sweep_objects,
    scan_checkpoint, scan_page, stage_checkpoint, stale_links, stale_objects, sweep_links,
    sweep_objects, sweeps_a_page,
};
use crate::graph::soundness::{lemma_with_generation, sound};
use crate::graph::store::FilesystemGraph;
use crate::ids::{FileId128, FileKey, FileLinkId, VolumeId};
use crate::order::{first_page, is_page, lemma_is_first_page, lemma_page_congruent, separates};
use crate::selection::{insert_bounded, pair_rank};
use crate::table::Row;

verus! {

/// The stale links among the first `n` rows.
spec fn stale_links_before(
    m: GraphModel,
    volume: VolumeId,
    cutoff: u64,
    keys: Seq<FileLinkId>,
    n: int,
) -> spec_fn((u64, u128)) -> bool {
    |p: (u64, u128)|
        stale_links(m, volume, cutoff)(p) && exists|j: int|
            0 <= j < n && (#[trigger] keys[j]).value == p.1
}

/// The stale objects among the first `n` rows.
spec fn stale_objects_before(
    m: GraphModel,
    volume: VolumeId,
    cutoff: u64,
    keys: Seq<FileKey>,
    n: int,
) -> spec_fn((u64, u128)) -> bool {
    |p: (u64, u128)|
        stale_objects(m, volume, cutoff)(p) && exists|j: int|
            0 <= j < n && #[trigger] keys[j] == (FileKey {
                volume_id: volume,
                file_id: FileId128 { value: p.1 },
            })
}

proof fn lemma_pair_rank_separates(eligible: spec_fn((u64, u128)) -> bool)
    ensures
        separates(eligible, pair_rank()),
{
}

/// The number as eight bytes, most significant first.
fn to_big_endian(value: u64) -> (r: Vec<u8>)
    ensures
        r@ == big_endian(value),
{
    let r = vec![
        #[verifier::truncate] ((value >> 56) as u8),
        #[verifier::truncate] ((value >> 48) as u8),
        #[verifier::truncate] ((value >> 40) as u8),
        #[verifier::truncate] ((value >> 32) as u8),
        #[verifier::truncate] ((value >> 24) as u8),
        #[verifier::truncate] ((value >> 16) as u8),
        #[verifier::truncate] ((value >> 8) as u8),
        #[verifier::truncate] (value as u8),
    ];
    assert(r@ =~= big_endian(value));
    r
}

fn observation_scan_checkpoint(volume_id: VolumeId, scan_generation: u64) -> (r: ProviderCheckpoint)
    ensures
        r@ == scan_checkpoint(volume_id, scan_generation),
{
    ProviderCheckpoint {
        provider_id: "localsearch-observation-scan".to_owned(),
        format_version: 1,
        volume_id,
        opaque: to_big_endian(scan_generation),
    }
}

impl FilesystemGraph {
    /// Starts or restarts an authoritative scan for one selected volume.
    ///
    /// Existing rows are retained while pages arrive. Their observation generations become the
    /// bounded stale-set cutoff when the scan reaches its final checkpoint.
    pub fn begin_observation_scan(
        &mut self,
        descriptor: &VolumeDescriptor,
        mode: ObservationScanMode,
        reason: ReconciliationReason,
    ) -> (r: GraphResult<ObservationSession>)
        requires
            old(self).wf(),
        ensures
            final(self).wf(),
            match r {
                Ok(session) => begin_scan(old(self)@, descriptor@, mode, reason) == Ok::<
                    (GraphModel, ObservationSession),
                    ErrorModel,
                >((final(self)@, session)),
                Err(e) => final(self)@ == old(self)@ && begin_scan(
                    old(self)@,
                    descriptor@,
                    mode,
                    reason,
                ) == Err::<(GraphModel, ObservationSession), ErrorModel>(e@),
            },
    {
        let ghost m = self@;
        proof {
            lemma_begin_scan(m, descriptor@, mode, reason);
        }
        let volume_id = descriptor.volume_id;
        let current: u64 = self.volume_generation(volume_id);
        if current >= 0x7fff_ffff_ffff_ffff {
            return Err(numeric_range("observation scan generation"));
        }
        let scan_generation: u64 = current + 1;
        self.put_volume(descriptor);
        self.set_state(volume_id, VolumeState::NeedsReconciliation, Some(Some(reason)));
        let ghost marked = self@;
        self.set_generation(volume_id, scan_generation);
        proof {
            lemma_with_generation(marked, volume_id, scan_generation);
        }
        self.enqueue_volume_projection_refresh(volume_id, scan_generation);
        self.sessions.put(
            volume_id,
            SessionRow {
                scan_generation,
                mode,
                phase: ObservationScanPhase::Scanning,
                staged: None,
            },
        );
        Ok(
            ObservationSession {
                volume_id,
                scan_generation,
                mode,
                phase: ObservationScanPhase::Scanning,
            },
        )
    }

    /// Loads full-volume observation progress.
    pub fn observation_session(&self, volume_id: VolumeId) -> (r: GraphResult<
        Option<ObservationSession>,
    >)
        requires
            self.wf(),
        ensures
            match r {
                Ok(Some(session)) => {
                    &&& self@.sessions.dom().contains(volume_id)
                    &&& session.volume_id == volume_id
                    &&& session.scan_generation == self@.sessions[volume_id].scan_generation
                    &&& session.mode == self@.sessions[volume_id].mode
                    &&& session.phase == self@.sessions[volume_id].phase
                },
                Ok(None) => !self@.sessions.dom().contains(volume_id),
                Err(_) => false,
            },
    {
        match self.sessions.get(&volume_id) {
            Some(row) => Ok(
                Some(
                    ObservationSession {
                        volume_id,
                        scan_generation: row.scan_generation,
                        mode: row.mode,
                        phase: row.phase,
                    },
                ),
            ),
            None => Ok(None),
        }
    }

    /// Commits one bounded scan page while retaining the scan session.
    pub fn apply_observation_scan_page(
        &mut self,
        volume_id: VolumeId,
        events: Vec<FilesystemEvent>,
    ) -> (r: GraphResult<ApplySummary>)
        requires
            old(self).wf(),
        ensures
            final(self).wf(),
            match r {
                Ok(summary) => scan_page(old(self)@, volume_id, events@) == Ok::<
                    (GraphModel, ApplySummary),
                    ErrorModel,
                >((final(self)@, summary)),
                Err(e) => final(self)@ == old(self)@ && scan_page(
                    old(self)@,
                    volume_id,
                    events@,
                ) == Err::<(GraphModel, ApplySummary), ErrorModel>(e@),
            },
    {
        let scan_generation: u64 = match self.sessions.get(&volume_id) {
            Some(session) => {
                if !matches!(session.phase, ObservationScanPhase::Scanning) {
                    return Err(
                        invariant_error(
                            "observation scan page arrived after finalization started",
                        ),
                    );
                }
                session.scan_generation
            },
            None => {
                return Err(invariant_error("observation scan page has no durable session"));
            },
        };
        if events.len() == 0 {
            return Ok(
                ApplySummary {
                    mutations: 0,
                    generation: scan_generation,
                    refresh_jobs_enqueued: 0,
                    outbox_mutations_appended: 0,
                },
            );
        }
        let batch = GraphMutationBatch::from_events(
            volume_id,
            observation_scan_checkpoint(volume_id, scan_generation),
            events,
        );
        self.apply_batch(&batch)
    }

    /// Keeps the provider checkpoint returned after the last full-scan page.
    ///
    /// The checkpoint remains staged until bounded stale-link and stale-object sweeps complete.
    pub fn stage_observation_checkpoint(
        &mut self,
        volume_id: VolumeId,
        checkpoint: &ProviderCheckpoint,
    ) -> (r: GraphResult<()>)
        requires
            old(self).wf(),
        ensures
            final(self).wf(),
            match r {
                Ok(()) => stage_checkpoint(old(self)@, volume_id, checkpoint@) == Ok::<
                    GraphModel,
                    ErrorModel,
                >(final(self)@),
                Err(e) => final(self)@ == old(self)@ && stage_checkpoint(
                    old(self)@,
                    volume_id,
                    checkpoint@,
                ) == Err::<GraphModel, ErrorModel>(e@),
            },
    {
        let ghost m = self@;
        proof {
            lemma_stage_checkpoint(m, volume_id, checkpoint@);
        }
        if checkpoint.volume_id != volume_id {
            return Err(invalid_batch("observation checkpoint crosses volumes"));
        }
        let row = match self.sessions.get(&volume_id) {
            Some(session) => {
                if !matches!(session.phase, ObservationScanPhase::Scanning) {
                    return Err(invariant_error("observation checkpoint has no scanning session"));
                }
                SessionRow {
                    scan_generation: session.scan_generation,
                    mode: session.mode,
                    phase: ObservationScanPhase::SweepingLinks,
                    staged: Some(ProviderCheckpoint::duplicate(checkpoint)),
                }
            },
            None => {
                return Err(invariant_error("observation checkpoint has no scanning session"));
            },
        };
        self.sessions.put(volume_id, row);
        Ok(())
    }

    /// The first stale links, oldest first.
    fn stale_link_page(&self, volume_id: VolumeId, cutoff: u64, limit: usize) -> (page: Vec<
        (u64, u128),
    >)
        requires
            self.tables_wf(),
            limit >= 1,
        ensures
            is_page(page@, stale_links(self@, volume_id, cutoff), pair_rank(), limit as nat),
            page@ == first_page(
                stale_links(self@, volume_id, cutoff),
                pair_rank(),
                limit as nat,
            ),
    {
        let ghost m = self@;
        let ghost keys = self.links.keys();
        let mut page: Vec<(u64, u128)> = Vec::new();
        let mut i: usize = 0;
        proof {
            self.links.lemma_keys();
            let none = stale_links_before(m, volume_id, cutoff, keys, 0);
            assert forall|p: (u64, u128)| !#[trigger] none(p) by {
            }
        }
        while i < self.links.len()
            invariant
                self.tables_wf(),
                m == self@,
                keys == self.links.keys(),
                limit >= 1,
                i <= keys.len(),
                crate::order::ascends(keys, crate::table::key_rank::<FileLinkId>()),
                is_page(
                    page@,
                    stale_links_before(m, volume_id, cutoff, keys, i as int),
                    pair_rank(),
                    limit as nat,
                ),
            decreases keys.len() - i,
        {
            let id = self.links.key_at(i);
            let row = self.links.row_at(i);
            let ghost before = stale_links_before(m, volume_id, cutoff, keys, i as int);
            let ghost after = stale_links_before(m, volume_id, cutoff, keys, i + 1);
            let ghost item = (row.observed, id.value);
            proof {
                assert forall|p: (u64, u128)| #[trigger]
                    after(p) == (before(p) || (p == item && stale_links(m, volume_id, cutoff)(
                    item,
                ))) by {
                    if after(p) && !before(p) {
                        let j = choose|j: int|
                            0 <= j < i + 1 && (#[trigger] keys[j]).value == p.1;
                        assert(j == i);
                    }
                    if before(p) {
                        let j = choose|j: int| 0 <= j < i && (#[trigger] keys[j]).value == p.1;
                        assert(0 <= j < i + 1 && keys[j].value == p.1);
                    }
                    if p == item {
                        assert(keys[i as int].value == p.1);
                    }
                }
                if before(item) {
                    let j = choose|j: int| 0 <= j < i && (#[trigger] keys[j]).value == item.1;
                    assert(crate::table::key_rank::<FileLinkId>()(keys[j])
                        < crate::table::key_rank::<FileLinkId>()(keys[i as int]));
                }
            }
            if row.object_key.volume_id == volume_id && row.observed < cutoff {
                assert(stale_links(m, volume_id, cutoff)(item));
                insert_bounded(
                    &mut page,
                    (row.observed, id.value),
                    limit,
                    Ghost(before),
                    Ghost(after),
                );
            } else {
                proof {
                    assert(!stale_links(m, volume_id, cutoff)(item));
                    lemma_page_congruent(page@, before, after, pair_rank(), limit as nat);
                }
            }
            i = i + 1;
        }
        proof {
            self.links.lemma_keys();
            let seen = stale_links_before(m, volume_id, cutoff, keys, keys.len() as int);
            let all = stale_links(m, volume_id, cutoff);
            assert forall|p: (u64, u128)| #[trigger] seen(p) == all(p) by {
                if all(p) {
                    let l = FileLinkId { value: p.1 };
                    assert(self.links@.dom().contains(l));
                    let x = choose|x: int|
                        0 <= x < self.links.keys().len() && #[trigger] self.links.keys()[x] == l;
                    assert(keys[x].value == p.1);
                }
            }
            lemma_page_congruent(page@, seen, all, pair_rank(), limit as nat);
            lemma_pair_rank_separates(all);
            lemma_is_first_page(page@, all, pair_rank(), limit as nat);
        }
        page
    }

    /// The first stale objects, oldest first.
    fn stale_object_page(&self, volume_id: VolumeId, cutoff: u64, limit: usize) -> (page: Vec<
        (u64, u128),
    >)
        requires
            self.tables_wf(),
            limit >= 1,
        ensures
            is_page(page@, stale_objects(self@, volume_id, cutoff), pair_rank(), limit as nat),
            page@ == first_page(
                stale_objects(self@, volume_id, cutoff),
                pair_rank(),
                limit as nat,
            ),
    {
        let ghost m = self@;
        let ghost keys = self.objects.keys();
        let mut page: Vec<(u64, u128)> = Vec::new();
        let mut i: usize = 0;
        proof {
            self.objects.lemma_keys();
            let none = stale_objects_before(m, volume_id, cutoff, keys, 0);
            assert forall|p: (u64, u128)| !#[trigger] none(p) by {
            }
        }
        while i < self.objects.len()
            invariant
                self.tables_wf(),
                m == self@,
                keys == self.objects.keys(),
                limit >= 1,
                i <= keys.len(),
                crate::order::ascends(keys, crate::table::key_rank::<FileKey>()),
                is_page(
                    page@,
                    stale_objects_before(m, volume_id, cutoff, keys, i as int),
                    pair_rank(),
                    limit as nat,
                ),
            decreases keys.len() - i,
        {
            let key = self.objects.key_at(i);
            let row = *self.objects.row_at(i);
            let ghost before = stale_objects_before(m, volume_id, cutoff, keys, i as int);
            let ghost after = stale_objects_before(m, volume_id, cutoff, keys, i + 1);
            let ghost item = (row.observed, key.file_id.value);
            let ghost counted = key.volume_id == volume_id && stale_objects(m, volume_id, cutoff)(
                item,
            );
            proof {
                assert forall|p: (u64, u128)| #[trigger]
                    after(p) == (before(p) || (p == item && counted)) by {
                    let k = FileKey { volume_id, file_id: FileId128 { value: p.1 } };
                    if after(p) && !before(p) {
                        let j = choose|j: int| 0 <= j < i + 1 && #[trigger] keys[j] == k;
                        assert(j == i);
                    }
                    if before(p) {
                        let j = choose|j: int| 0 <= j < i && #[trigger] keys[j] == k;
                        assert(0 <= j < i + 1 && keys[j] == k);
                    }
                    if p == item && counted {
                        assert(keys[i as int] == k);
                    }
                }
                if before(item) && counted {
                    let k = FileKey { volume_id, file_id: FileId128 { value: item.1 } };
                    let j = choose|j: int| 0 <= j < i && #[trigger] keys[j] == k;
                    assert(crate::table::key_rank::<FileKey>()(keys[j])
                        < crate::table::key_rank::<FileKey>()(keys[i as int]));
                }
            }
            if key.volume_id == volume_id && !row.tombstoned && row.observed < cutoff
                && !self.object_is_linked(key) {
                assert(counted);
                insert_bounded(
                    &mut page,
                    (row.observed, key.file_id.value),
                    limit,
                    Ghost(before),
                    Ghost(after),
                );
            } else {
                proof {
                    assert(!counted);
                    lemma_page_congruent(page@, before, after, pair_rank(), limit as nat);
                }
            }
            i = i + 1;
        }
        proof {
            self.objects.lemma_keys();
            let seen = stale_objects_before(m, volume_id, cutoff, keys, keys.len() as int);
            let all = stale_objects(m, volume_id, cutoff);
            assert forall|p: (u64, u128)| #[trigger] seen(p) == all(p) by {
                if all(p) {
                    let k = FileKey { volume_id, file_id: FileId128 { value: p.1 } };
                    assert(self.objects@.dom().contains(k));
                    let x = choose|x: int|
                        0 <= x < self.objects.keys().len() && #[trigger] self.objects.keys()[x]
                            == k;
                    assert(keys[x] == k);
                }
            }
            lemma_page_congruent(page@, seen, all, pair_rank(), limit as nat);
            lemma_pair_rank_separates(all);
            lemma_is_first_page(page@, all, pair_rank(), limit as nat);
        }
        page
    }

    fn sweep_stale_observation_links(&mut self, page: &Vec<(u64, u128)>, generation: u64) -> (r:
        GraphResult<()>)
        requires
            old(self).wf(),
            generation <= column_max(),
            forall|i: int|
                0 <= i < page@.len() ==> old(self)@.links.dom().contains(
                    FileLinkId { value: (#[trigger] page@[i]).1 },
                ),
        ensures
            match r {
                Ok(()) => final(self).wf() && sweep_links(
                    old(self)@,
                    page@,
                    generation,
                    page@.len(),
                ) == Ok::<GraphModel, ErrorModel>(final(self)@),
                Err(e) => sweep_links(old(self)@, page@, generation, page@.len()) == Err::<
                    GraphModel,
                    ErrorModel,
                >(e@),
            },
    {
        let ghost m = self@;
        let mut expected: Vec<FileKey> = Vec::new();
        let mut k: usize = 0;
        while k < page.len()
            invariant
                self.wf(),
                m == self@,
                k <= page@.len(),
                expected@.len() == k,
                forall|i: int|
                    0 <= i < page@.len() ==> m.links.dom().contains(
                        FileLinkId { value: (#[trigger] page@[i]).1 },
                    ),
                forall|i: int|
                    0 <= i < k ==> #[trigger] expected@[i] == m.links[FileLinkId {
                        value: page@[i].1,
                    }].object_key,
            decreases page@.len() - k,
        {
            let id = FileLinkId { value: page[k].1 };
            assert(m.links.dom().contains(FileLinkId { value: page@[k as int].1 }));
            if let Some(row) = self.links.get(&id) {
                expected.push(row.object_key);
            }
            k = k + 1;
        }
        let mut i: usize = 0;
        while i < page.len()
            invariant
                m == old(self)@,
                sound(m),
                self.wf(),
                generation <= column_max(),
                i <= page@.len(),
                expected@.len() == page@.len(),
                forall|x: int|
                    0 <= x < page@.len() ==> #[trigger] expected@[x] == m.links[FileLinkId {
                        value: page@[x].1,
                    }].object_key,
                sweep_links(m, page@, generation, i as nat) == Ok::<GraphModel, ErrorModel>(self@),
            decreases page@.len() - i,
        {
            let id = FileLinkId { value: page[i].1 };
            proof {
                lemma_sweep_links(m, page@, generation, (i + 1) as nat);
            }
            match self.remove_link_internal(id, expected[i], generation, false) {
                Ok(_) => {},
                Err(e) => {
                    proof {
                        lemma_sweep_links_fails(m, page@, generation, (i + 1) as nat, page@.len());
                    }
                    return Err(e);
                },
            }
            match self.sync_catalog_projection(id, generation, ProjectionOutboxMode::Durable) {
                Ok(_) => {},
                Err(e) => {
                    proof {
                        lemma_sweep_links_fails(m, page@, generation, (i + 1) as nat, page@.len());
                    }
                    return Err(e);
                },
            }
            i = i + 1;
        }
        Ok(())
    }

    fn sweep_stale_observation_objects(
        &mut self,
        volume_id: VolumeId,
        page: &Vec<(u64, u128)>,
        Ghost(cutoff): Ghost<u64>,
    )
        requires
            old(self).wf(),
            forall|i: int|
                0 <= i < page@.len() ==> stale_objects(old(self)@, volume_id, cutoff)(
                    #[trigger] page@[i],
                ),
        ensures
            final(self).wf(),
            final(self)@ == sweep_objects(old(self)@, volume_id, page@, page@.len()),
    {
        let ghost m = self@;
        let mut i: usize = 0;
        while i < page.len()
            invariant
                sound(m),
                self.wf(),
                i <= page@.len(),
                self@ == sweep_objects(m, volume_id, page@, i as nat),
                forall|x: int|
                    0 <= x < page@.len() ==> stale_objects(m, volume_id, cutoff)(
                        #[trigger] page@[x],
                    ),
            decreases page@.len() - i,
        {
            proof {
                lemma_sweep_objects(m, volume_id, cutoff, page@, i as nat);
                lemma_sweep_objects(m, volume_id, cutoff, page@, (i + 1) as nat);
                assert(stale_objects(m, volume_id, cutoff)(page@[i as int]));
            }
            let key = FileKey::new(volume_id, FileId128 { value: page[i].1 });
            self.set_tombstone(key, true);
            i = i + 1;
        }
    }

    fn activate_observation_checkpoint(
        &mut self,
        volume_id: VolumeId,
        generation: u64,
        staged: ProviderCheckpoint,
    )
        requires
            old(self).wf(),
            generation <= column_max(),
            old(self)@.volumes.dom().contains(volume_id),
            staged.volume_id == volume_id,
        ensures
            final(self).wf(),
            final(self)@ == activate(old(self)@, volume_id, generation, staged@),
    {
        let ghost m = self@;
        proof {
            lemma_activate(m, volume_id, generation, staged@);
        }
        let ghost content = staged@;
        self.checkpoints.put(volume_id, staged);
        let ghost saved = GraphModel { checkpoints: m.checkpoints.insert(volume_id, content), ..m };
        assert(self@ == saved);
        self.set_state(volume_id, VolumeState::Online, Some(None));
        let ghost online = self@;
        self.set_generation(volume_id, generation);
        proof {
            lemma_with_generation(online, volume_id, generation);
        }
        self.enqueue_volume_projection_refresh(volume_id, generation);
        self.sessions.erase(&volume_id);
    }

    /// Removes one bounded page of rows absent from a completed authoritative scan.
    ///
    /// On the terminal object page, the provider checkpoint, online state, projection refresh, and
    /// session removal commit atomically. Incremental reads are unsafe until `completed` is true.
    pub fn finalize_observation_scan(&mut self, volume_id: VolumeId, maximum_rows: u32) -> (r:
        GraphResult<ObservationFinalizeSummary>)
        requires
            old(self).wf(),
        ensures
            final(self).wf(),
            match r {
                Ok(summary) => finalize_scan(old(self)@, volume_id, maximum_rows as nat) == Ok::<
                    (GraphModel, ObservationFinalizeSummary),
                    ErrorModel,
                >((final(self)@, summary)),
                Err(e) => final(self)@ == old(self)@ && finalize_scan(
                    old(self)@,
                    volume_id,
                    maximum_rows as nat,
                ) == Err::<(GraphModel, ObservationFinalizeSummary), ErrorModel>(e@),
            },
            maximum_rows > 0 && old(self)@.sessions.dom().contains(volume_id)
                && old(self)@.sessions[volume_id].phase != ObservationScanPhase::Scanning
                && old(self)@.volumes[volume_id].generation < column_max() ==> sweeps_a_page(
                old(self)@,
                volume_id,
                maximum_rows as nat,
            ),
            r matches Ok(summary) ==> {
                &&& summary.stale_links_removed + summary.stale_objects_tombstoned <= maximum_rows
                &&& summary.completed ==> {
                    &&& !final(self)@.sessions.dom().contains(volume_id)
                    &&& old(self)@.sessions[volume_id].staged is Some
                    &&& final(self)@.checkpoints.dom().contains(volume_id)
                    &&& final(self)@.checkpoints[volume_id]
                        == old(self)@.sessions[volume_id].staged->0
                    &&& final(self)@.volumes[volume_id].state == VolumeState::Online
                }
                &&& !summary.completed ==> {
                    &&& maximum_rows > 0 ==> final(self)@.sessions.dom().contains(volume_id)
                    &&& final(self)@.checkpoints == old(self)@.checkpoints
                    &&& final(self)@.volumes[volume_id].state
                        == old(self)@.volumes[volume_id].state
                    &&& final(self)@.volumes[volume_id].reason
                        == old(self)@.volumes[volume_id].reason
                }
            },
    {
        let ghost m = self@;
        let mut summary = ObservationFinalizeSummary {
            stale_links_removed: 0,
            stale_objects_tombstoned: 0,
            completed: false,
        };
        if maximum_rows == 0 {
            return Ok(summary);
        }
        let session = match self.sessions.get(&volume_id) {
            Some(session) => session.duplicate(),
            None => {
                return Err(invariant_error("observation finalization has no durable session"));
            },
        };
        if matches!(session.phase, ObservationScanPhase::Scanning) {
            return Err(
                invariant_error("observation finalization started before provider checkpoint"),
            );
        }
        assert(m.sessions.dom().contains(volume_id));
        let current: u64 = self.volume_generation(volume_id);
        if current >= 0x7fff_ffff_ffff_ffff {
            return Err(numeric_range("observation finalization generation"));
        }
        let generation: u64 = current + 1;
        let limit: usize = maximum_rows as usize;
        if matches!(session.phase, ObservationScanPhase::SweepingLinks) {
            let page = self.stale_link_page(volume_id, session.scan_generation, limit);
            let mut next = self.duplicate();
            proof {
                let eligible = stale_links(m, volume_id, session.scan_generation);
                assert forall|i: int| 0 <= i < page@.len() implies m.links.dom().contains(
                    FileLinkId { value: (#[trigger] page@[i]).1 },
                ) by {
                    assert(eligible(page@[i]));
                }
                lemma_sweep_links(m, page@, generation, page@.len());
            }
            match next.sweep_stale_observation_links(&page, generation) {
                Ok(()) => {},
                Err(e) => {
                    return Err(e);
                },
            }
            if page.len() < limit {
                let staged = match session.staged {
                    Some(staged) => Some(staged),
                    None => None,
                };
                let ghost swept = next@;
                next.sessions.put(
                    volume_id,
                    SessionRow {
                        scan_generation: session.scan_generation,
                        mode: session.mode,
                        phase: ObservationScanPhase::SweepingObjects,
                        staged,
                    },
                );
                assert(next@ == begin_object_sweep(swept, volume_id));
            }
            let ghost moved = next@;
            proof {
                lemma_with_generation(moved, volume_id, generation);
            }
            next.set_generation(volume_id, generation);
            summary.stale_links_removed = page.len() as u64;
            *self = next;
            Ok(summary)
        } else {
            let page = self.stale_object_page(volume_id, session.scan_generation, limit);
            proof {
                lemma_sweep_objects(
                    m,
                    volume_id,
                    session.scan_generation,
                    page@,
                    page@.len(),
                );
            }
            self.sweep_stale_observation_objects(volume_id, &page, Ghost(session.scan_generation));
            summary.stale_objects_tombstoned = page.len() as u64;
            if page.len() < limit {
                if let Some(staged) = session.staged {
                    self.activate_observation_checkpoint(volume_id, generation, staged);
                }
                summary.completed = true;
            } else {
                proof {
                    lemma_with_generation(self@, volume_id, generation);
                }
                self.set_generation(volume_id, generation);
            }
            Ok(summary)
        }
    }
}

/// Once a link cannot be swept, the rest is not tried.
proof fn lemma_sweep_links_fails(
    m: GraphModel,
    page: Seq<(u64, u128)>,
    generation: u64,
    i: nat,
    n: nat,
)
    requires
        i <= n,
        sweep_links(m, page, generation, i) is Err,
    ensures
        sweep_links(m, page, generation, n) == sweep_links(m, page, generation, i),
    decreases n,
{
    if i < n {
        lemma_sweep_links_fails(m, page, generation, i, (n - 1) as nat);
    }
}

} // verus!
