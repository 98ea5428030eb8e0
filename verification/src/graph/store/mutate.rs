//! The mutations of a batch.

use vstd::prelude::*;

use crate::catalog::{
    FileKind, FileLinkSnapshot, FileObjectSnapshot, ReconciliationReason, VolumeDescriptor,
};
use crate::graph::domain::{GraphMutation, ObservationScanPhase, VolumeState};
use crate::graph::error::{invariant_error, numeric_range, GraphError, GraphResult, StorageFault};
use crate::graph::model::{
    affects, apply_mutation, column_max, enqueue_if_moved, enqueue_refresh, enqueue_volume_refresh,
    is_linked, names_object, occupies, place_link, place_taken, refresh_pending, remove_link,
    remove_links, stale_conflicts, tombstone_object, upsert_link, upsert_object, upsert_volume,
    with_state, with_tombstone, write_link, DocumentRowModel, GraphModel, ObjectRow, PathJobRow,
    Step, VolumeJobRow,
};
use crate::graph::rows::{LinkRow, VolumeRow};
use crate::graph::soundness::{
    collide, lemma_apply_mutation, lemma_enqueue_refresh, lemma_place_link, lemma_remove_link,
    lemma_enqueue_volume_refresh, lemma_remove_links, lemma_upsert_volume, lemma_with_state,
    rows_sound,
};
use crate::graph::store::paths::linked_to;
use crate::graph::store::FilesystemGraph;
use crate::ids::{DocumentId, FileKey, FileLinkId, JobId, VolumeId};


verus! {

/// The result and the next graph are what the step says.
pub open spec fn agrees(step: Step, r: GraphResult<u64>, next: GraphModel) -> bool {
    match r {
        Ok(n) => step == Ok::<(GraphModel, nat), crate::graph::error::ErrorModel>((next, n as nat)),
        Err(e) => step == Err::<(GraphModel, nat), crate::graph::error::ErrorModel>(e@),
    }
}

impl FilesystemGraph {
    pub(super) fn put_volume(&mut self, descriptor: &VolumeDescriptor)
        requires
            old(self).wf_inside(),
        ensures
            final(self).wf_inside(),
            final(self)@ == upsert_volume(old(self)@, descriptor@),
    {
        let ghost m = self@;
        let generation: u64 = self.volume_generation(descriptor.volume_id);
        self.volumes.put(
            descriptor.volume_id,
            VolumeRow {
                descriptor: descriptor.duplicate(),
                state: VolumeState::Online,
                reason: None,
                generation,
            },
        );
        proof {
            lemma_upsert_volume(m, descriptor@);
            assert(self@ == upsert_volume(m, descriptor@));
        }
    }

    /// The generation of a volume; zero if the volume is not known.
    pub(super) fn volume_generation(&self, volume_id: VolumeId) -> (r: u64)
        requires
            self.tables_wf(),
        ensures
            r == crate::graph::model::generation_of(self@, volume_id),
    {
        match self.volumes.get(&volume_id) {
            Some(row) => row.generation,
            None => 0,
        }
    }

    pub(super) fn enqueue_volume_projection_refresh(&mut self, volume_id: VolumeId, generation: u64)
        requires
            old(self).wf_inside(),
            old(self)@.volumes.dom().contains(volume_id),
        ensures
            final(self).wf_inside(),
            final(self)@ == enqueue_volume_refresh(old(self)@, volume_id, generation),
    {
        let ghost m = self@;
        self.volume_jobs.put(
            volume_id,
            VolumeJobRow { generation, cursor: None, pending: true },
        );
        proof {
            lemma_enqueue_volume_refresh(m, volume_id, generation);
            assert(self@ == enqueue_volume_refresh(m, volume_id, generation));
        }
    }

    /// Changes the state of a volume; false if the volume is not known.
    pub(super) fn set_state(
        &mut self,
        volume_id: VolumeId,
        state: VolumeState,
        reason: Option<Option<ReconciliationReason>>,
    ) -> (known: bool)
        requires
            old(self).wf_inside(),
        ensures
            known == old(self)@.volumes.dom().contains(volume_id),
            final(self).wf_inside(),
            known ==> final(self)@ == with_state(
                old(self)@,
                volume_id,
                state,
                match reason {
                    Some(r) => r,
                    None => old(self)@.volumes[volume_id].reason,
                },
            ),
            !known ==> final(self)@ == old(self)@,
    {
        let row = match self.volumes.get(&volume_id) {
            Some(row) => VolumeRow {
                descriptor: row.descriptor.duplicate(),
                state,
                reason: match reason {
                    Some(r) => r,
                    None => row.reason,
                },
                generation: row.generation,
            },
            None => {
                return false;
            },
        };
        let ghost m = self@;
        let ghost next = with_state(m, volume_id, state, row.reason);
        self.volumes.put(volume_id, row);
        proof {
            lemma_with_state(m, volume_id, state, row.reason);
            assert(self@ == next);
        }
        true
    }

    fn put_object(&mut self, object: &FileObjectSnapshot, generation: u64) -> (r: GraphResult<u64>)
        requires
            old(self).wf_inside(),
            generation <= column_max(),
        ensures
            agrees(upsert_object(old(self)@, *object, generation), r, final(self)@),
            r is Ok ==> final(self).wf_inside(),
    {
        if object.metadata.size > 0x7fff_ffff_ffff_ffff {
            return Err(numeric_range("file size"));
        }
        if !self.volumes.contains(&object.object_key.volume_id) {
            return Err(GraphError::Storage(StorageFault::UnknownVolume));
        }
        self.objects.put(
            object.object_key,
            ObjectRow { metadata: object.metadata, tombstoned: false, observed: generation },
        );
        Ok(0)
    }

    fn has_pending_refresh(&self, key: FileKey) -> (r: bool)
        requires
            self.tables_wf(),
        ensures
            r == refresh_pending(self@, key),
    {
        let mut i: usize = 0;
        while i < self.path_jobs.len()
            invariant
                self.tables_wf(),
                i <= self.path_jobs.keys().len(),
                forall|j: int|
                    0 <= j < i ==> !(self.path_jobs@[#[trigger] self.path_jobs.keys()[j]].pending
                        && self.path_jobs@[self.path_jobs.keys()[j]].root_object == key),
            decreases self.path_jobs.keys().len() - i,
        {
            let id = self.path_jobs.key_at(i);
            let row = self.path_jobs.row_at(i);
            if row.pending && row.root_object == key {
                assert(self@.path_jobs.dom().contains(id));
                return true;
            }
            i = i + 1;
        }
        proof {
            self.path_jobs.lemma_keys();
            if refresh_pending(self@, key) {
                let j = choose|j: JobId| #[trigger]
                    self@.path_jobs.dom().contains(j) && self@.path_jobs[j].pending
                        && self@.path_jobs[j].root_object == key;
                assert(self.path_jobs@.dom().contains(j));
                let x = choose|x: int|
                    0 <= x < self.path_jobs.keys().len() && #[trigger] self.path_jobs.keys()[x] == j;
                assert(self.path_jobs.keys()[x] == j);
            }
        }
        false
    }

    fn enqueue_refresh(&mut self, key: FileKey, generation: u64) -> (r: GraphResult<u64>)
        requires
            old(self).wf_inside(),
            old(self)@.objects.dom().contains(key),
        ensures
            agrees(enqueue_refresh(old(self)@, key, generation), r, final(self)@),
            r is Ok ==> final(self).wf_inside(),
    {
        proof {
            lemma_enqueue_refresh(self@, key, generation);
        }
        if self.has_pending_refresh(key) {
            return Ok(0);
        }
        if self.last_job == i64::MAX {
            return Err(GraphError::Storage(StorageFault::SequenceExhausted));
        }
        let next: i64 = self.last_job + 1;
        self.path_jobs.put(
            JobId(next),
            PathJobRow { root_object: key, generation, cursor: None, pending: true },
        );
        self.last_job = next;
        Ok(1)
    }

    pub(super) fn set_tombstone(&mut self, key: FileKey, tombstoned: bool)
        requires
            old(self).tables_wf(),
            old(self)@.objects.dom().contains(key),
        ensures
            final(self).tables_wf(),
            final(self)@ == with_tombstone(old(self)@, key, tombstoned),
    {
        if let Some(row) = self.objects.get(&key) {
            let next = ObjectRow { metadata: row.metadata, tombstoned, observed: row.observed };
            self.objects.put(key, next);
        }
    }

    /// Whether some link names the object.
    pub(super) fn object_is_linked(&self, key: FileKey) -> (r: bool)
        requires
            self.tables_wf(),
        ensures
            r == is_linked(self@, key),
    {
        let found = self.links_of_object(key);
        proof {
            let eligible = linked_to(self@, key);
            if found@.len() > 0 {
                assert(eligible(found@[0]));
                assert(names_object(self@, found@[0], key));
            }
            if is_linked(self@, key) {
                let l = choose|l: FileLinkId| #[trigger] names_object(self@, l, key);
                assert(eligible(l));
            }
        }
        found.len() != 0
    }

    fn object_is_directory(&self, key: FileKey) -> (r: GraphResult<bool>)
        requires
            self.tables_wf(),
            self@.objects.dom().contains(key),
        ensures
            r is Ok,
            r->Ok_0 == crate::graph::model::is_directory(self@, key),
    {
        match self.objects.get(&key) {
            Some(row) => Ok(matches!(row.metadata.kind, FileKind::Directory)),
            None => Err(invariant_error("directory check references unknown object")),
        }
    }

    pub(super) fn remove_link_internal(
        &mut self,
        file_link_id: FileLinkId,
        expected: FileKey,
        generation: u64,
        refresh_directory_paths: bool,
    ) -> (r: GraphResult<u64>)
        requires
            old(self).wf_inside(),
        ensures
            agrees(
                remove_link(
                    old(self)@,
                    file_link_id,
                    expected,
                    generation,
                    refresh_directory_paths,
                ),
                r,
                final(self)@,
            ),
            r is Ok ==> final(self).wf_inside(),
    {
        let ghost m = self@;
        proof {
            lemma_remove_link(m, file_link_id, expected, generation, refresh_directory_paths);
        }
        let object_key = match self.links.get(&file_link_id) {
            Some(row) => row.object_key,
            None => {
                return Ok(0);
            },
        };
        if object_key != expected {
            return Err(
                invariant_error("link removal object identity does not match durable state"),
            );
        }
        assert(self@.links.dom().contains(file_link_id));
        let directory = match self.object_is_directory(expected) {
            Ok(directory) => directory,
            Err(e) => {
                return Err(e);
            },
        };
        self.links.erase(&file_link_id);
        let ghost unlinked = GraphModel { links: m.links.remove(file_link_id), ..m };
        assert(self@ == unlinked);
        if !self.object_is_linked(expected) {
            self.set_tombstone(expected, true);
        }
        proof {
            lemma_remove_link(m, file_link_id, expected, generation, false);
        }
        if directory && refresh_directory_paths {
            self.enqueue_refresh(expected, generation)
        } else {
            Ok(0)
        }
    }

    /// Another link at the place of this one, older than the cutoff where one is given.
    fn find_occupant(&self, link: &FileLinkSnapshot, cutoff: Option<u64>) -> (r: Option<FileLinkId>)
        requires
            self.tables_wf(),
        ensures
            match r {
                Some(other) => occupies(self@, other, link@) && (cutoff matches Some(c)
                    ==> self@.links[other].observed < c),
                None => forall|other: FileLinkId| #[trigger]
                    occupies(self@, other, link@) ==> (cutoff matches Some(c)
                        && self@.links[other].observed >= c),
            },
    {
        let mut i: usize = 0;
        while i < self.links.len()
            invariant
                self.tables_wf(),
                i <= self.links.keys().len(),
                forall|j: int|
                    0 <= j < i && occupies(self@, #[trigger] self.links.keys()[j], link@) ==> (
                    cutoff matches Some(c) && self@.links[self.links.keys()[j]].observed >= c),
            decreases self.links.keys().len() - i,
        {
            let id = self.links.key_at(i);
            let row = self.links.row_at(i);
            let recent = match cutoff {
                Some(c) => row.observed >= c,
                None => false,
            };
            if id != link.file_link_id && row.name == link.name && row.parent_key
                == link.parent_key && (link.parent_key.is_some() || row.object_key.volume_id
                == link.object_key.volume_id) && !recent {
                assert(occupies(self@, id, link@));
                return Some(id);
            }
            i = i + 1;
        }
        proof {
            self.links.lemma_keys();
            assert forall|other: FileLinkId| #[trigger]
                occupies(self@, other, link@) implies (cutoff matches Some(c)
                && self@.links[other].observed >= c) by {
                assert(self.links@.dom().contains(other));
                let x = choose|x: int|
                    0 <= x < self.links.keys().len() && #[trigger] self.links.keys()[x] == other;
                assert(self.links.keys()[x] == other);
            }
        }
        None
    }

    /// The links that a scan in progress supersedes by observing this one.
    fn stale_observation_link_conflicts(&self, link: &FileLinkSnapshot) -> (r: Vec<
        (FileLinkId, FileKey),
    >)
        requires
            self.wf_inside(),
        ensures
            r@ == stale_conflicts(self@, link@),
    {
        let mut conflicts: Vec<(FileLinkId, FileKey)> = Vec::new();
        let cutoff: u64 = match self.sessions.get(&link.object_key.volume_id) {
            Some(session) => {
                if !matches!(session.phase, ObservationScanPhase::Scanning) {
                    assert(conflicts@ =~= stale_conflicts(self@, link@));
                    return conflicts;
                }
                session.scan_generation
            },
            None => {
                assert(conflicts@ =~= stale_conflicts(self@, link@));
                return conflicts;
            },
        };
        let ghost m = self@;
        if let Some(row) = self.links.get(&link.file_link_id) {
            if row.object_key != link.object_key && row.observed < cutoff {
                conflicts.push((link.file_link_id, row.object_key));
            }
        }
        let ghost rebound = conflicts@;
        match self.find_occupant(link, Some(cutoff)) {
            Some(other) => {
                if let Some(row) = self.links.get(&other) {
                    conflicts.push((other, row.object_key));
                }
                proof {
                    let chosen = choose|o: FileLinkId| #[trigger]
                        occupies(m, o, link@) && m.links[o].observed < cutoff;
                    assert(occupies(m, chosen, link@));
                    if chosen != other {
                        assert(collide(m.links[chosen], m.links[other]));
                    }
                    assert(conflicts@ =~= rebound + seq![(other, m.links[other].object_key)]);
                }
            },
            None => {
                proof {
                    assert(!exists|o: FileLinkId| #[trigger]
                        occupies(m, o, link@) && m.links[o].observed < cutoff);
                    assert(conflicts@ =~= rebound + Seq::<(FileLinkId, FileKey)>::empty());
                }
            },
        }
        proof {
            let id = link.file_link_id;
            if m.links.dom().contains(id) && m.links[id].object_key != link.object_key
                && m.links[id].observed < cutoff {
                assert(rebound =~= seq![(id, m.links[id].object_key)]);
            } else {
                assert(rebound =~= Seq::<(FileLinkId, FileKey)>::empty());
            }
        }
        conflicts
    }

    fn write_link_row(
        &mut self,
        link: &FileLinkSnapshot,
        traversal_boundary: bool,
        generation: u64,
    ) -> (r: GraphResult<()>)
        requires
            old(self).tables_wf(),
            old(self)@.objects.dom().contains(link.object_key),
        ensures
            match r {
                Ok(()) => final(self).tables_wf() && write_link(
                    old(self)@,
                    link@,
                    traversal_boundary,
                    generation,
                ) == Ok::<GraphModel, crate::graph::error::ErrorModel>(final(self)@),
                Err(e) => write_link(old(self)@, link@, traversal_boundary, generation) == Err::<
                    GraphModel,
                    crate::graph::error::ErrorModel,
                >(e@),
            },
    {
        if let Some(other) = self.find_occupant(link, None) {
            assert(occupies(self@, other, link@));
            assert(place_taken(self@, link@));
            if link.parent_key.is_some() {
                return Err(GraphError::Storage(StorageFault::DuplicateName));
            }
            return Err(GraphError::Storage(StorageFault::DuplicateRootName));
        }
        assert(!place_taken(self@, link@));
        self.links.put(
            link.file_link_id,
            LinkRow {
                object_key: link.object_key,
                parent_key: link.parent_key,
                name: link.name.clone(),
                traversal_boundary,
                observed: generation,
            },
        );
        self.set_tombstone(link.object_key, false);
        Ok(())
    }

    fn settle_link(
        &mut self,
        link: &FileLinkSnapshot,
        traversal_boundary: bool,
        generation: u64,
    ) -> (r: GraphResult<u64>)
        requires
            old(self).wf_inside(),
            old(self)@.objects.dom().contains(link.object_key),
            generation <= column_max(),
        ensures
            agrees(
                place_link(old(self)@, link@, traversal_boundary, generation),
                r,
                final(self)@,
            ),
            r is Ok ==> final(self).wf_inside(),
    {
        let ghost m = self@;
        proof {
            lemma_place_link(m, link@, traversal_boundary, generation);
            lemma_enqueue_refresh(m, link.object_key, generation);
        }
        let mut moved = false;
        if let Some(row) = self.links.get(&link.file_link_id) {
            if row.object_key != link.object_key {
                return Err(invariant_error("a file-link ID cannot be rebound to another object"));
            }
            moved = row.parent_key != link.parent_key || row.name != link.name;
        }
        assert(moved == crate::graph::model::is_moved(m, link@));
        let mut jobs: u64 = 0;
        if moved {
            let directory = match self.object_is_directory(link.object_key) {
                Ok(directory) => directory,
                Err(e) => {
                    return Err(e);
                },
            };
            if directory {
                jobs = match self.enqueue_refresh(link.object_key, generation) {
                    Ok(jobs) => jobs,
                    Err(e) => {
                        return Err(e);
                    },
                };
            }
        }
        assert(enqueue_if_moved(m, link@, generation) == Ok::<
            (GraphModel, nat),
            crate::graph::error::ErrorModel,
        >((self@, jobs as nat)));
        match self.write_link_row(link, traversal_boundary, generation) {
            Ok(()) => Ok(jobs),
            Err(e) => Err(e),
        }
    }

    fn put_link(
        &mut self,
        link: &FileLinkSnapshot,
        traversal_boundary: bool,
        generation: u64,
    ) -> (r: GraphResult<u64>)
        requires
            old(self).wf_inside(),
            generation <= column_max(),
        ensures
            agrees(
                upsert_link(old(self)@, link@, traversal_boundary, generation),
                r,
                final(self)@,
            ),
            r is Ok ==> final(self).wf_inside(),
    {
        if !self.objects.contains(&link.object_key) {
            return Err(invariant_error("link observation precedes its physical object"));
        }
        let ghost m = self@;
        let stale = self.stale_observation_link_conflicts(link);
        let mut i: usize = 0;
        while i < stale.len()
            invariant
                m == old(self)@,
                rows_sound(m),
                self.wf_inside(),
                i <= stale@.len(),
                stale@ == stale_conflicts(m, link@),
                m.objects.dom().contains(link.object_key),
                remove_links(m, stale@, generation, i as nat) == Ok::<
                    (GraphModel, nat),
                    crate::graph::error::ErrorModel,
                >((self@, 0)),
            decreases stale@.len() - i,
        {
            let (stale_link, stale_object) = stale[i];
            match self.remove_link_internal(stale_link, stale_object, generation, false) {
                Ok(_) => {},
                Err(e) => {
                    proof {
                        lemma_remove_links_fails(
                            m,
                            stale@,
                            generation,
                            (i + 1) as nat,
                            stale@.len(),
                        );
                    }
                    return Err(e);
                },
            }
            i = i + 1;
        }
        proof {
            lemma_remove_links(m, stale@, generation, stale@.len());
        }
        self.settle_link(link, traversal_boundary, generation)
    }

    fn tombstone(&mut self, key: FileKey) -> (r: GraphResult<u64>)
        requires
            old(self).wf_inside(),
        ensures
            agrees(tombstone_object(old(self)@, key), r, final(self)@),
            r is Ok ==> final(self).wf_inside(),
    {
        proof {
            lemma_apply_mutation(
                self@,
                crate::graph::domain::MutationModel::TombstoneObject { object_key: key },
                0,
            );
        }
        if self.object_is_linked(key) {
            return Err(
                invariant_error("object cannot be tombstoned while namespace links remain"),
            );
        }
        if !self.objects.contains(&key) {
            return Err(invariant_error("object tombstone references an unknown object"));
        }
        self.set_tombstone(key, true);
        Ok(0)
    }

    /// One mutation, and the number of refresh jobs that it queued.
    pub(super) fn apply_mutation(&mut self, mutation: &GraphMutation, generation: u64) -> (r:
        GraphResult<u64>)
        requires
            old(self).wf_inside(),
            generation <= column_max(),
        ensures
            agrees(apply_mutation(old(self)@, mutation@, generation), r, final(self)@),
            r is Ok ==> final(self).wf_inside(),
            r matches Ok(n) ==> n <= 1,
    {
        proof {
            lemma_apply_mutation(self@, mutation@, generation);
        }
        match mutation {
            GraphMutation::UpsertVolume { descriptor } => {
                self.put_volume(descriptor);
                Ok(0)
            },
            GraphMutation::SetVolumeState { volume_id, state } => {
                if !self.set_state(*volume_id, *state, None) {
                    return Err(
                        invariant_error("volume state update references an unknown volume"),
                    );
                }
                self.enqueue_volume_projection_refresh(*volume_id, generation);
                Ok(1)
            },
            GraphMutation::UpsertObject { object } => self.put_object(object, generation),
            GraphMutation::UpsertLink { link, traversal_boundary } => {
                self.put_link(link, *traversal_boundary, generation)
            },
            GraphMutation::RemoveLink { file_link_id, object_key } => {
                self.remove_link_internal(*file_link_id, *object_key, generation, true)
            },
            GraphMutation::TombstoneObject { object_key } => self.tombstone(*object_key),
            GraphMutation::RequireReconciliation { volume_id, reason } => {
                if !self.set_state(
                    *volume_id,
                    VolumeState::NeedsReconciliation,
                    Some(Some(*reason)),
                ) {
                    return Err(invariant_error("reconciliation references an unknown volume"));
                }
                self.enqueue_volume_projection_refresh(*volume_id, generation);
                Ok(1)
            },
        }
    }

    /// Adds the links whose documents a mutation may change.
    pub(super) fn collect_affected_links(
        &self,
        mutation: &GraphMutation,
        affected: &mut Vec<FileLinkId>,
    )
        requires
            self.wf_inside(),
        ensures
            final(affected)@.to_set() == old(affected)@.to_set().union(
                Set::new(|l: FileLinkId| affects(self@, mutation@, l)),
            ),
    {
        let ghost m = self@;
        let ghost start = affected@.to_set();
        let ghost added = Set::new(|l: FileLinkId| affects(m, mutation@, l));
        match mutation {
            GraphMutation::UpsertLink { link, .. } => {
                let stale = self.stale_observation_link_conflicts(link);
                let ghost before = affected@;
                affected.push(link.file_link_id);
                proof {
                    lemma_push_set(before, link.file_link_id);
                }
                let mut i: usize = 0;
                while i < stale.len()
                    invariant
                        i <= stale@.len(),
                        affected@.to_set() == start.insert(link.file_link_id).union(
                            firsts(stale@, i as nat),
                        ),
                    decreases stale@.len() - i,
                {
                    let ghost before = affected@;
                    affected.push(stale[i].0);
                    proof {
                        lemma_push_set(before, stale@[i as int].0);
                        lemma_firsts_step(stale@, i as nat);
                        assert(start.insert(link.file_link_id).union(firsts(stale@, i as nat)).insert(
                            stale@[i as int].0,
                        ) =~= start.insert(link.file_link_id).union(
                            firsts(stale@, (i + 1) as nat),
                        ));
                    }
                    i = i + 1;
                }
                proof {
                    assert(start.insert(link.file_link_id).union(firsts(stale@, stale@.len()))
                        =~= start.union(added)) by {
                        assert forall|l: FileLinkId| added.contains(l) == (l == link.file_link_id
                            || firsts(stale@, stale@.len()).contains(l)) by {
                            assert(added.contains(l) == affects(m, mutation@, l));
                        }
                    }
                }
            },
            GraphMutation::RemoveLink { file_link_id, .. } => {
                let ghost before = affected@;
                affected.push(*file_link_id);
                proof {
                    lemma_push_set(before, *file_link_id);
                    assert(start.insert(*file_link_id) =~= start.union(added));
                }
            },
            GraphMutation::UpsertObject { object } => {
                self.collect_object_link_ids(object.object_key, affected);
                proof {
                    assert(affected@.to_set() =~= start.union(added));
                }
            },
            GraphMutation::TombstoneObject { object_key } => {
                self.collect_object_link_ids(*object_key, affected);
                let ghost middle = affected@.to_set();
                self.collect_document_links(*object_key, affected);
                proof {
                    assert(affected@.to_set() =~= start.union(added)) by {
                        assert forall|l: FileLinkId| affected@.to_set().contains(l)
                            == start.union(added).contains(l) by {
                            assert(added.contains(l) == affects(m, mutation@, l));
                        }
                    }
                }
            },
            _ => {
                assert(added =~= Set::empty());
                assert(start.union(added) =~= start);
            },
        }
    }

    fn collect_object_link_ids(&self, key: FileKey, affected: &mut Vec<FileLinkId>)
        requires
            self.tables_wf(),
        ensures
            final(affected)@.to_set() == old(affected)@.to_set().union(
                Set::new(|l: FileLinkId| names_object(self@, l, key)),
            ),
    {
        let ghost m = self@;
        let ghost start = affected@.to_set();
        let found = self.links_of_object(key);
        let mut i: usize = 0;
        proof {
            assert(start.union(found@.take(0).to_set()) =~= start);
        }
        while i < found.len()
            invariant
                i <= found@.len(),
                affected@.to_set() == start.union(found@.take(i as int).to_set()),
            decreases found@.len() - i,
        {
            let ghost before = affected@;
            affected.push(found[i]);
            proof {
                lemma_push_set(before, found@[i as int]);
                lemma_push_set(found@.take(i as int), found@[i as int]);
                assert(found@.take(i + 1) =~= found@.take(i as int).push(found@[i as int]));
                assert(start.union(found@.take(i as int).to_set()).insert(found@[i as int])
                    =~= start.union(found@.take(i + 1).to_set()));
            }
            i = i + 1;
        }
        proof {
            assert(found@.take(i as int) =~= found@);
            let eligible = linked_to(m, key);
            let named = Set::new(|l: FileLinkId| names_object(m, l, key));
            assert(found@.to_set() =~= named) by {
                assert forall|l: FileLinkId| found@.to_set().contains(l) == named.contains(l) by {
                    if found@.contains(l) {
                        let x = found@.index_of(l);
                        assert(eligible(found@[x]));
                    }
                    if named.contains(l) {
                        assert(eligible(l));
                    }
                }
            }
        }
    }

    fn collect_document_links(&self, key: FileKey, affected: &mut Vec<FileLinkId>)
        requires
            self.tables_wf(),
        ensures
            forall|l: FileLinkId|
                final(affected)@.to_set().contains(l) == (old(affected)@.to_set().contains(l)
                    || exists|d: DocumentId| #[trigger]
                    self@.documents.dom().contains(d) && self@.documents[d].object_key == key
                        && self@.documents[d].file_link_id == l),
    {
        let ghost start = affected@.to_set();
        let ghost rows = self.documents@;
        let ghost keys = self.documents.keys();
        let mut i: usize = 0;
        proof {
            assert(start.union(document_links(rows, keys, key, 0)) =~= start);
        }
        while i < self.documents.len()
            invariant
                self.tables_wf(),
                rows == self.documents@,
                keys == self.documents.keys(),
                i <= keys.len(),
                affected@.to_set() == start.union(document_links(rows, keys, key, i as nat)),
            decreases keys.len() - i,
        {
            let ghost before = affected@;
            let row = self.documents.row_at(i);
            proof {
                lemma_document_links_step(rows, keys, key, i as nat);
            }
            if row.object_key == key {
                affected.push(row.file_link_id);
                proof {
                    lemma_push_set(before, row.file_link_id);
                    assert(start.union(document_links(rows, keys, key, i as nat)).insert(
                        row.file_link_id,
                    ) =~= start.union(document_links(rows, keys, key, (i + 1) as nat)));
                }
            }
            i = i + 1;
        }
        proof {
            self.documents.lemma_keys();
            let found = document_links(rows, keys, key, keys.len());
            assert forall|l: FileLinkId| found.contains(l) == exists|d: DocumentId| #[trigger]
                self@.documents.dom().contains(d) && self@.documents[d].object_key == key
                    && self@.documents[d].file_link_id == l by {
                if found.contains(l) {
                    let j = choose|j: int| document_link_at(rows, keys, key, j, l) && 0 <= j
                        < keys.len();
                    assert(self@.documents.dom().contains(keys[j]));
                }
                if exists|d: DocumentId| #[trigger]
                    self@.documents.dom().contains(d) && self@.documents[d].object_key == key
                        && self@.documents[d].file_link_id == l {
                    let d = choose|d: DocumentId| #[trigger]
                        self@.documents.dom().contains(d) && self@.documents[d].object_key == key
                            && self@.documents[d].file_link_id == l;
                    assert(self.documents@.dom().contains(d));
                    let x = choose|x: int|
                        0 <= x < self.documents.keys().len() && #[trigger] self.documents.keys()[x]
                            == d;
                    assert(document_link_at(rows, keys, key, x, l));
                }
            }
        }
    }
}

/// The document at position `j` belongs to the object and to the link.
spec fn document_link_at(
    rows: Map<DocumentId, DocumentRowModel>,
    keys: Seq<DocumentId>,
    key: FileKey,
    j: int,
    l: FileLinkId,
) -> bool {
    rows[keys[j]].object_key == key && rows[keys[j]].file_link_id == l
}

/// The links of the documents of an object, among the first `n` documents.
spec fn document_links(
    rows: Map<DocumentId, DocumentRowModel>,
    keys: Seq<DocumentId>,
    key: FileKey,
    n: nat,
) -> Set<FileLinkId> {
    Set::new(
        |l: FileLinkId|
            exists|j: int| 0 <= j < n && #[trigger] document_link_at(rows, keys, key, j, l),
    )
}

proof fn lemma_document_links_step(
    rows: Map<DocumentId, DocumentRowModel>,
    keys: Seq<DocumentId>,
    key: FileKey,
    n: nat,
)
    requires
        n < keys.len(),
    ensures
        document_links(rows, keys, key, (n + 1) as nat) == if rows[keys[n as int]].object_key
            == key {
            document_links(rows, keys, key, n).insert(rows[keys[n as int]].file_link_id)
        } else {
            document_links(rows, keys, key, n)
        },
{
    let before = document_links(rows, keys, key, n);
    let after = document_links(rows, keys, key, (n + 1) as nat);
    assert forall|l: FileLinkId| after.contains(l) == (before.contains(l) || document_link_at(
        rows,
        keys,
        key,
        n as int,
        l,
    )) by {
        if after.contains(l) {
            let j = choose|j: int|
                0 <= j < n + 1 && #[trigger] document_link_at(rows, keys, key, j, l);
            if j < n {
                assert(0 <= j < n && document_link_at(rows, keys, key, j, l));
            }
        }
        if before.contains(l) {
            let j = choose|j: int| 0 <= j < n && #[trigger] document_link_at(rows, keys, key, j, l);
            assert(0 <= j < n + 1 && document_link_at(rows, keys, key, j, l));
        }
    }
    if rows[keys[n as int]].object_key == key {
        assert(after =~= before.insert(rows[keys[n as int]].file_link_id));
    } else {
        assert(after =~= before);
    }
}

/// The first components of the first `n` pairs.
spec fn firsts(pairs: Seq<(FileLinkId, FileKey)>, n: nat) -> Set<FileLinkId> {
    Set::new(|l: FileLinkId| exists|i: int| 0 <= i < n && #[trigger] pairs[i].0 == l)
}

proof fn lemma_firsts_step(pairs: Seq<(FileLinkId, FileKey)>, n: nat)
    requires
        n < pairs.len(),
    ensures
        firsts(pairs, (n + 1) as nat) == firsts(pairs, n).insert(pairs[n as int].0),
{
    assert forall|l: FileLinkId| firsts(pairs, (n + 1) as nat).contains(l) == firsts(
        pairs,
        n,
    ).insert(pairs[n as int].0).contains(l) by {
        if firsts(pairs, (n + 1) as nat).contains(l) {
            let i = choose|i: int| 0 <= i < n + 1 && #[trigger] pairs[i].0 == l;
            if i < n {
                assert(0 <= i < n && pairs[i].0 == l);
            }
        }
        if firsts(pairs, n).contains(l) {
            let i = choose|i: int| 0 <= i < n && #[trigger] pairs[i].0 == l;
            assert(0 <= i < n + 1 && pairs[i].0 == l);
        }
        if l == pairs[n as int].0 {
            assert(0 <= n < n + 1 && pairs[n as int].0 == l);
        }
    }
    assert(firsts(pairs, (n + 1) as nat) =~= firsts(pairs, n).insert(pairs[n as int].0));
}

/// Appending an element adds it to the set of elements.
pub proof fn lemma_push_set(s: Seq<FileLinkId>, l: FileLinkId)
    ensures
        s.push(l).to_set() == s.to_set().insert(l),
{
    assert forall|x: FileLinkId| s.push(l).to_set().contains(x) == s.to_set().insert(l).contains(
        x,
    ) by {
        if s.contains(x) {
            let i = s.index_of(x);
            assert(s.push(l)[i] == x);
        }
        assert(s.push(l)[s.len() as int] == l);
    }
    assert(s.push(l).to_set() =~= s.to_set().insert(l));
}

proof fn lemma_remove_links_fails(
    m: GraphModel,
    stale: Seq<(FileLinkId, FileKey)>,
    generation: u64,
    i: nat,
    n: nat,
)
    requires
        i <= n,
        remove_links(m, stale, generation, i) is Err,
    ensures
        remove_links(m, stale, generation, n) == remove_links(m, stale, generation, i),
    decreases n,
{
    if i < n {
        lemma_remove_links_fails(m, stale, generation, i, (n - 1) as nat);
    }
}

} // verus!
