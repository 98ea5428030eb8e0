//! Deferred refreshes of derived paths and availability.

use vstd::prelude::*;

use crate::graph::domain::{PathRefreshJob, ProjectionRefreshSummary};
use crate::graph::error::{ErrorModel, GraphResult};
use crate::graph::model::{document_of, GraphModel, PathJobRow, ProjectionOutboxMode, VolumeJobRow};
use crate::graph::store::FilesystemGraph;
use crate::graph::upkeep_model::{
    document_links_after, lemma_refresh_paths_step, lemma_refresh_volume_step, links_after,
    pending_path_jobs, pending_volume_jobs, refresh_paths, refresh_volume, refreshes_a_path_page,
    refreshes_a_volume_page,
};
use crate::ids::{FileLinkId, JobId, VolumeId};
use crate::order::{ascends, first_page, is_page};
use crate::table::{gathered, key_rank, lemma_gather, lemma_gathered_page, TableKey};

verus! {

/// A queued job as it is reported.
pub open spec fn reported_job(m: GraphModel, j: JobId) -> PathRefreshJob {
    PathRefreshJob {
        job_id: j.0,
        volume_id: m.path_jobs[j].root_object.volume_id,
        root_object: m.path_jobs[j].root_object,
        enqueued_generation: m.path_jobs[j].generation,
    }
}

impl FilesystemGraph {
    /// The first pending path jobs, oldest first.
    fn pending_path_page(&self, limit: usize) -> (page: Vec<JobId>)
        requires
            self.tables_wf(),
        ensures
            is_page(page@, pending_path_jobs(self@), key_rank::<JobId>(), limit as nat),
            page@ == first_page(pending_path_jobs(self@), key_rank::<JobId>(), limit as nat),
    {
        let ghost m = self@;
        let ghost eligible = pending_path_jobs(m);
        let ghost keys = self.path_jobs.keys();
        let mut found: Vec<JobId> = Vec::new();
        let mut i: usize = 0;
        proof {
            self.path_jobs.lemma_keys();
        }
        while i < self.path_jobs.len() && found.len() < limit
            invariant
                self.tables_wf(),
                m == self@,
                eligible == pending_path_jobs(m),
                keys == self.path_jobs.keys(),
                i <= keys.len(),
                ascends(keys, key_rank::<JobId>()),
                gathered(found@, keys, i as int, eligible),
                found@.len() <= limit,
            decreases keys.len() - i,
        {
            let id = self.path_jobs.key_at(i);
            proof {
                lemma_gather(found@, keys, i as int, eligible);
            }
            if self.path_jobs.row_at(i).pending {
                found.push(id);
            }
            i = i + 1;
        }
        proof {
            self.path_jobs.lemma_keys();
            lemma_gathered_page(found@, keys, i as int, eligible, limit as nat);
        }
        found
    }

    /// The first volumes with a pending refresh.
    fn pending_volume_page(&self, limit: usize) -> (page: Vec<VolumeId>)
        requires
            self.tables_wf(),
        ensures
            is_page(page@, pending_volume_jobs(self@), key_rank::<VolumeId>(), limit as nat),
            page@ == first_page(pending_volume_jobs(self@), key_rank::<VolumeId>(), limit as nat),
    {
        let ghost m = self@;
        let ghost eligible = pending_volume_jobs(m);
        let ghost keys = self.volume_jobs.keys();
        let mut found: Vec<VolumeId> = Vec::new();
        let mut i: usize = 0;
        proof {
            self.volume_jobs.lemma_keys();
        }
        while i < self.volume_jobs.len() && found.len() < limit
            invariant
                self.tables_wf(),
                m == self@,
                eligible == pending_volume_jobs(m),
                keys == self.volume_jobs.keys(),
                i <= keys.len(),
                ascends(keys, key_rank::<VolumeId>()),
                gathered(found@, keys, i as int, eligible),
                found@.len() <= limit,
            decreases keys.len() - i,
        {
            let id = self.volume_jobs.key_at(i);
            proof {
                lemma_gather(found@, keys, i as int, eligible);
            }
            if self.volume_jobs.row_at(i).pending {
                found.push(id);
            }
            i = i + 1;
        }
        proof {
            self.volume_jobs.lemma_keys();
            lemma_gathered_page(found@, keys, i as int, eligible, limit as nat);
        }
        found
    }

    /// The first links of a volume after a cursor.
    fn link_page(&self, volume_id: VolumeId, cursor: Option<FileLinkId>, limit: usize) -> (page: Vec<
        FileLinkId,
    >)
        requires
            self.tables_wf(),
        ensures
            is_page(
                page@,
                links_after(self@, volume_id, cursor),
                key_rank::<FileLinkId>(),
                limit as nat,
            ),
            page@ == first_page(
                links_after(self@, volume_id, cursor),
                key_rank::<FileLinkId>(),
                limit as nat,
            ),
    {
        let ghost m = self@;
        let ghost eligible = links_after(m, volume_id, cursor);
        let ghost keys = self.links.keys();
        let mut found: Vec<FileLinkId> = Vec::new();
        let mut i: usize = 0;
        proof {
            self.links.lemma_keys();
        }
        while i < self.links.len() && found.len() < limit
            invariant
                self.tables_wf(),
                m == self@,
                eligible == links_after(m, volume_id, cursor),
                keys == self.links.keys(),
                i <= keys.len(),
                ascends(keys, key_rank::<FileLinkId>()),
                gathered(found@, keys, i as int, eligible),
                found@.len() <= limit,
            decreases keys.len() - i,
        {
            let id = self.links.key_at(i);
            proof {
                lemma_gather(found@, keys, i as int, eligible);
            }
            let later = match cursor {
                Some(c) => id.value > c.value,
                None => true,
            };
            if later && self.links.row_at(i).object_key.volume_id == volume_id {
                found.push(id);
            }
            i = i + 1;
        }
        proof {
            self.links.lemma_keys();
            lemma_gathered_page(found@, keys, i as int, eligible, limit as nat);
        }
        found
    }

    /// The first links with a document on a volume, after a cursor.
    fn document_link_page(&self, volume_id: VolumeId, cursor: Option<FileLinkId>, limit: usize) -> (page:
        Vec<FileLinkId>)
        requires
            self.wf(),
        ensures
            is_page(
                page@,
                document_links_after(self@, volume_id, cursor),
                key_rank::<FileLinkId>(),
                limit as nat,
            ),
            page@ == first_page(
                document_links_after(self@, volume_id, cursor),
                key_rank::<FileLinkId>(),
                limit as nat,
            ),
    {
        let ghost m = self@;
        let ghost eligible = document_links_after(m, volume_id, cursor);
        let ghost keys = Seq::new(
            self.documents.keys().len(),
            |j: int| FileLinkId { value: self.documents.keys()[j].value },
        );
        let mut found: Vec<FileLinkId> = Vec::new();
        let mut i: usize = 0;
        proof {
            self.documents.lemma_keys();
            let ids = self.documents.keys();
            assert forall|a: int, b: int| 0 <= a < b < keys.len() implies key_rank::<FileLinkId>()(
                #[trigger] keys[a],
            ) < key_rank::<FileLinkId>()(#[trigger] keys[b]) by {
                assert(ids[a].rank() < ids[b].rank());
            }
        }
        while i < self.documents.len() && found.len() < limit
            invariant
                self.wf(),
                m == self@,
                eligible == document_links_after(m, volume_id, cursor),
                keys.len() == self.documents.keys().len(),
                forall|j: int|
                    0 <= j < keys.len() ==> #[trigger] keys[j] == (FileLinkId {
                        value: self.documents.keys()[j].value,
                    }),
                i <= keys.len(),
                ascends(keys, key_rank::<FileLinkId>()),
                gathered(found@, keys, i as int, eligible),
                found@.len() <= limit,
            decreases keys.len() - i,
        {
            let id = self.documents.key_at(i);
            let link = FileLinkId { value: id.value };
            proof {
                assert(keys[i as int] == link);
                assert(document_of(link) == id);
                lemma_gather(found@, keys, i as int, eligible);
            }
            let later = match cursor {
                Some(c) => link.value > c.value,
                None => true,
            };
            if later && self.documents.row_at(i).object_key.volume_id == volume_id {
                found.push(link);
            }
            i = i + 1;
        }
        proof {
            self.documents.lemma_keys();
            assert forall|l: FileLinkId| #[trigger] eligible(l) implies exists|j: int|
                0 <= j < keys.len() && #[trigger] keys[j] == l by {
                assert(self.documents@.dom().contains(document_of(l)));
                let j = choose|j: int|
                    0 <= j < self.documents.keys().len() && #[trigger] self.documents.keys()[j]
                        == document_of(l);
                assert(keys[j] == l);
            }
            lemma_gathered_page(found@, keys, i as int, eligible, limit as nat);
        }
        found
    }

    /// Returns pending refresh requests, oldest first.
    pub fn pending_refresh_jobs(&self, limit: u32) -> (r: GraphResult<Vec<PathRefreshJob>>)
        requires
            self.wf(),
        ensures
            r is Ok,
            ({
                let page = first_page(
                    pending_path_jobs(self@),
                    key_rank::<JobId>(),
                    limit as nat,
                );
                &&& is_page(page, pending_path_jobs(self@), key_rank::<JobId>(), limit as nat)
                &&& r->Ok_0@.len() == page.len()
                &&& forall|i: int|
                    0 <= i < page.len() ==> #[trigger] r->Ok_0@[i] == reported_job(self@, page[i])
            }),
    {
        let page = self.pending_path_page(limit as usize);
        let mut jobs: Vec<PathRefreshJob> = Vec::new();
        let mut i: usize = 0;
        while i < page.len()
            invariant
                self.wf(),
                i <= page@.len(),
                is_page(
                    page@,
                    pending_path_jobs(self@),
                    key_rank::<JobId>(),
                    limit as nat,
                ),
                jobs@.len() == i,
                forall|x: int| 0 <= x < i ==> #[trigger] jobs@[x] == reported_job(self@, page@[x]),
            decreases page@.len() - i,
        {
            assert(pending_path_jobs(self@)(page@[i as int]));
            if let Some(row) = self.path_jobs.get(&page[i]) {
                jobs.push(
                    PathRefreshJob {
                        job_id: page[i].0,
                        volume_id: row.root_object.volume_id,
                        root_object: row.root_object,
                        enqueued_generation: row.generation,
                    },
                );
            }
            i = i + 1;
        }
        Ok(jobs)
    }

    /// Advances the oldest pending path refresh by at most `maximum_links` links.
    pub fn refresh_projection_paths(&mut self, maximum_links: u32) -> (r: GraphResult<
        ProjectionRefreshSummary,
    >)
        requires
            old(self).wf(),
        ensures
            final(self).wf(),
            match r {
                Ok(summary) => refresh_paths(old(self)@, maximum_links as nat) == Ok::<
                    (GraphModel, ProjectionRefreshSummary),
                    ErrorModel,
                >((final(self)@, summary)),
                Err(e) => final(self)@ == old(self)@ && refresh_paths(
                    old(self)@,
                    maximum_links as nat,
                ) == Err::<(GraphModel, ProjectionRefreshSummary), ErrorModel>(e@),
            },
            maximum_links > 0 ==> refreshes_a_path_page(old(self)@, maximum_links as nat),
            r matches Ok(summary) ==> summary.outbox_mutations_appended <= summary.links_scanned
                <= maximum_links,
            r matches Ok(summary) ==> (summary.job_completed <==> maximum_links > 0 && (exists|
                job: JobId,
            | #[trigger]
                pending_path_jobs(old(self)@)(job)) && summary.links_scanned < maximum_links),
    {
        let ghost m = self@;
        let mut summary = ProjectionRefreshSummary {
            links_scanned: 0,
            outbox_mutations_appended: 0,
            job_completed: false,
        };
        if maximum_links == 0 {
            return Ok(summary);
        }
        let jobs = self.pending_path_page(1);
        if jobs.len() == 0 {
            return Ok(summary);
        }
        let job = jobs[0];
        assert(pending_path_jobs(m)(jobs@[0]));
        let row = match self.path_jobs.get(&job) {
            Some(row) => *row,
            None => {
                return Ok(summary);
            },
        };
        assert(m.objects.dom().contains(row.root_object));
        let volume_id = row.root_object.volume_id;
        let generation: u64 = self.volume_generation(volume_id);
        let limit: usize = maximum_links as usize;
        let page = self.link_page(volume_id, row.cursor, limit);
        let mut next = self.duplicate();
        proof {
            lemma_refresh_paths_step(m, job, page@, limit as nat);
        }
        let appended: u64 = match next.sync_catalog_projections(
            &page,
            generation,
            ProjectionOutboxMode::Durable,
        ) {
            Ok(appended) => appended,
            Err(e) => {
                return Err(e);
            },
        };
        let complete = page.len() < limit;
        if complete {
            next.path_jobs.put(
                job,
                PathJobRow {
                    root_object: row.root_object,
                    generation: row.generation,
                    cursor: row.cursor,
                    pending: false,
                },
            );
        } else {
            next.path_jobs.put(
                job,
                PathJobRow {
                    root_object: row.root_object,
                    generation: row.generation,
                    cursor: Some(page[page.len() - 1]),
                    pending: row.pending,
                },
            );
        }
        summary.links_scanned = page.len() as u64;
        summary.outbox_mutations_appended = appended;
        summary.job_completed = complete;
        *self = next;
        Ok(summary)
    }

    /// Advances the first pending volume refresh by at most `maximum_links` documents.
    pub fn refresh_volume_projection(&mut self, maximum_links: u32) -> (r: GraphResult<
        ProjectionRefreshSummary,
    >)
        requires
            old(self).wf(),
        ensures
            final(self).wf(),
            match r {
                Ok(summary) => refresh_volume(old(self)@, maximum_links as nat) == Ok::<
                    (GraphModel, ProjectionRefreshSummary),
                    ErrorModel,
                >((final(self)@, summary)),
                Err(e) => final(self)@ == old(self)@ && refresh_volume(
                    old(self)@,
                    maximum_links as nat,
                ) == Err::<(GraphModel, ProjectionRefreshSummary), ErrorModel>(e@),
            },
            maximum_links > 0 ==> refreshes_a_volume_page(old(self)@, maximum_links as nat),
            r matches Ok(summary) ==> summary.outbox_mutations_appended <= summary.links_scanned
                <= maximum_links,
            r matches Ok(summary) ==> (summary.job_completed <==> maximum_links > 0 && (exists|
                volume: VolumeId,
            | #[trigger]
                pending_volume_jobs(old(self)@)(volume)) && summary.links_scanned < maximum_links),
    {
        let ghost m = self@;
        let mut summary = ProjectionRefreshSummary {
            links_scanned: 0,
            outbox_mutations_appended: 0,
            job_completed: false,
        };
        if maximum_links == 0 {
            return Ok(summary);
        }
        let volumes = self.pending_volume_page(1);
        if volumes.len() == 0 {
            return Ok(summary);
        }
        let volume_id = volumes[0];
        assert(pending_volume_jobs(m)(volumes@[0]));
        let row = match self.volume_jobs.get(&volume_id) {
            Some(row) => *row,
            None => {
                return Ok(summary);
            },
        };
        let generation: u64 = self.volume_generation(volume_id);
        let limit: usize = maximum_links as usize;
        let page = self.document_link_page(volume_id, row.cursor, limit);
        let mut next = self.duplicate();
        proof {
            lemma_refresh_volume_step(m, volume_id, page@, limit as nat);
        }
        let appended: u64 = match next.sync_catalog_projections(
            &page,
            generation,
            ProjectionOutboxMode::Durable,
        ) {
            Ok(appended) => appended,
            Err(e) => {
                return Err(e);
            },
        };
        let complete = page.len() < limit;
        if complete {
            next.volume_jobs.put(
                volume_id,
                VolumeJobRow { generation: row.generation, cursor: row.cursor, pending: false },
            );
        } else {
            next.volume_jobs.put(
                volume_id,
                VolumeJobRow {
                    generation: row.generation,
                    cursor: Some(page[page.len() - 1]),
                    pending: row.pending,
                },
            );
        }
        summary.links_scanned = page.len() as u64;
        summary.outbox_mutations_appended = appended;
        summary.job_completed = complete;
        *self = next;
        Ok(summary)
    }

    /// Whether any refresh is pending.
    pub fn projection_refresh_maintenance_pending(&self) -> (r: GraphResult<bool>)
        requires
            self.wf(),
        ensures
            r is Ok,
            r->Ok_0 == ((exists|j: JobId| #[trigger] pending_path_jobs(self@)(j)) || (exists|
                v: VolumeId,
            | #[trigger]
                pending_volume_jobs(self@)(v))),
    {
        let jobs = self.pending_path_page(1);
        let volumes = self.pending_volume_page(1);
        proof {
            let a = pending_path_jobs(self@);
            let b = pending_volume_jobs(self@);
            if jobs@.len() > 0 {
                assert(a(jobs@[0]));
            } else {
                assert forall|j: JobId| !#[trigger] a(j) by {
                    assert(!jobs@.contains(j));
                }
            }
            if volumes@.len() > 0 {
                assert(b(volumes@[0]));
            } else {
                assert forall|v: VolumeId| !#[trigger] b(v) by {
                    assert(!volumes@.contains(v));
                }
            }
        }
        Ok(jobs.len() > 0 || volumes.len() > 0)
    }

    /// Marks a pending path refresh as done, and says whether there was one.
    pub fn complete_refresh_job(&mut self, job_id: i64) -> (r: GraphResult<bool>)
        requires
            old(self).wf(),
        ensures
            final(self).wf(),
            r is Ok,
            r->Ok_0 == pending_path_jobs(old(self)@)(JobId(job_id)),
            final(self)@ == if r->Ok_0 {
                GraphModel {
                    path_jobs: old(self)@.path_jobs.insert(
                        JobId(job_id),
                        PathJobRow { pending: false, ..old(self)@.path_jobs[JobId(job_id)] },
                    ),
                    ..old(self)@
                }
            } else {
                old(self)@
            },
    {
        let key = JobId(job_id);
        let row = match self.path_jobs.get(&key) {
            Some(row) => *row,
            None => {
                return Ok(false);
            },
        };
        if !row.pending {
            return Ok(false);
        }
        let ghost m = self@;
        self.path_jobs.put(
            key,
            PathJobRow {
                root_object: row.root_object,
                generation: row.generation,
                cursor: row.cursor,
                pending: false,
            },
        );
        proof {
            assert(self@.path_jobs.dom() =~= m.path_jobs.dom());
        }
        Ok(true)
    }
}

} // verus!
