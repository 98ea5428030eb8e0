//! Counts, states and integrity issues.

use vstd::prelude::*;

use crate::catalog::FileKind;
use crate::graph::domain::{GraphIntegrityIssue, GraphStats, VolumeState};
use crate::graph::error::{ErrorModel, GraphError, GraphResult, StorageFault};
use crate::graph::model::column_max;
use crate::graph::store::FilesystemGraph;
use crate::graph::upkeep_model::{
    all_issues, how_many, lemma_how_many, live_files, live_objects, orphans, parentless,
    pending_path_jobs, pending_volume_jobs, tombstoned_objects, total_size,
};
use crate::ids::{FileKey, FileLinkId, JobId, VolumeId};
use crate::order::{ascends, is_listing, listing};
use crate::table::{gathered, key_rank, lemma_gather, lemma_gathered_all};

verus! {

/// What is counted over the objects.
struct ObjectCounts {
    live: u64,
    files: u64,
    bytes: u64,
    tombstoned: u64,
}

impl FilesystemGraph {
    fn count_objects(&self) -> (r: Option<ObjectCounts>)
        requires
            self.tables_wf(),
        ensures
            ({
                let bytes = total_size(
                    self@,
                    listing(live_files(self@), key_rank::<FileKey>()),
                );
                &&& is_listing(
                    listing(live_files(self@), key_rank::<FileKey>()),
                    live_files(self@),
                    key_rank::<FileKey>(),
                )
                &&& match r {
                    Some(counts) => {
                        &&& counts.live == how_many(live_objects(self@))
                        &&& counts.files == how_many(live_files(self@))
                        &&& counts.tombstoned == how_many(tombstoned_objects(self@))
                        &&& counts.bytes == bytes
                        &&& bytes <= column_max()
                    },
                    None => bytes > column_max(),
                }
            }),
    {
        let ghost m = self@;
        let ghost keys = self.objects.keys();
        let ghost a = live_objects(m);
        let ghost b = live_files(m);
        let ghost c = tombstoned_objects(m);
        let ghost mut live: Seq<FileKey> = Seq::empty();
        let ghost mut files: Seq<FileKey> = Seq::empty();
        let ghost mut gone: Seq<FileKey> = Seq::empty();
        let mut counts = ObjectCounts { live: 0, files: 0, bytes: 0, tombstoned: 0 };
        let mut overflow = false;
        let mut i: usize = 0;
        proof {
            self.objects.lemma_keys();
        }
        while i < self.objects.len()
            invariant
                self.tables_wf(),
                m == self@,
                keys == self.objects.keys(),
                a == live_objects(m),
                b == live_files(m),
                c == tombstoned_objects(m),
                i <= keys.len(),
                ascends(keys, key_rank::<FileKey>()),
                gathered(live, keys, i as int, a),
                gathered(files, keys, i as int, b),
                gathered(gone, keys, i as int, c),
                counts.live == live.len(),
                counts.files == files.len(),
                counts.tombstoned == gone.len(),
                live.len() <= i,
                files.len() <= i,
                gone.len() <= i,
                overflow ==> total_size(m, files) > column_max(),
                !overflow ==> counts.bytes == total_size(m, files) && counts.bytes <= column_max(),
            decreases keys.len() - i,
        {
            let key = self.objects.key_at(i);
            let row = *self.objects.row_at(i);
            proof {
                lemma_gather(live, keys, i as int, a);
                lemma_gather(files, keys, i as int, b);
                lemma_gather(gone, keys, i as int, c);
            }
            if row.tombstoned {
                counts.tombstoned = counts.tombstoned + 1;
                proof {
                    gone = gone.push(key);
                }
            } else {
                counts.live = counts.live + 1;
                proof {
                    live = live.push(key);
                }
                if matches!(row.metadata.kind, FileKind::File) {
                    counts.files = counts.files + 1;
                    proof {
                        let before = files;
                        files = files.push(key);
                        assert(files.drop_last() =~= before);
                        assert(files.last() == key);
                    }
                    if !overflow {
                        if row.metadata.size > 0x7fff_ffff_ffff_ffff - counts.bytes {
                            overflow = true;
                        } else {
                            counts.bytes = counts.bytes + row.metadata.size;
                        }
                    }
                }
            }
            i = i + 1;
        }
        proof {
            self.objects.lemma_keys();
            lemma_gathered_all(live, keys, a);
            lemma_gathered_all(files, keys, b);
            lemma_gathered_all(gone, keys, c);
            lemma_how_many(live, a, key_rank::<FileKey>());
            lemma_how_many(files, b, key_rank::<FileKey>());
            lemma_how_many(gone, c, key_rank::<FileKey>());
        }
        if overflow {
            None
        } else {
            Some(counts)
        }
    }

    fn count_pending_path_jobs(&self) -> (n: u64)
        requires
            self.tables_wf(),
        ensures
            n == how_many(pending_path_jobs(self@)),
    {
        let ghost eligible = pending_path_jobs(self@);
        let ghost keys = self.path_jobs.keys();
        let ghost mut found: Seq<JobId> = Seq::empty();
        let mut n: u64 = 0;
        let mut i: usize = 0;
        proof {
            self.path_jobs.lemma_keys();
        }
        while i < self.path_jobs.len()
            invariant
                self.tables_wf(),
                eligible == pending_path_jobs(self@),
                keys == self.path_jobs.keys(),
                i <= keys.len(),
                ascends(keys, key_rank::<JobId>()),
                gathered(found, keys, i as int, eligible),
                n == found.len(),
                n <= i,
            decreases keys.len() - i,
        {
            let id = self.path_jobs.key_at(i);
            proof {
                lemma_gather(found, keys, i as int, eligible);
            }
            if self.path_jobs.row_at(i).pending {
                n = n + 1;
                proof {
                    found = found.push(id);
                }
            }
            i = i + 1;
        }
        proof {
            self.path_jobs.lemma_keys();
            lemma_gathered_all(found, keys, eligible);
            lemma_how_many(found, eligible, key_rank::<JobId>());
        }
        n
    }

    fn count_pending_volume_jobs(&self) -> (n: u64)
        requires
            self.tables_wf(),
        ensures
            n == how_many(pending_volume_jobs(self@)),
    {
        let ghost eligible = pending_volume_jobs(self@);
        let ghost keys = self.volume_jobs.keys();
        let ghost mut found: Seq<VolumeId> = Seq::empty();
        let mut n: u64 = 0;
        let mut i: usize = 0;
        proof {
            self.volume_jobs.lemma_keys();
        }
        while i < self.volume_jobs.len()
            invariant
                self.tables_wf(),
                eligible == pending_volume_jobs(self@),
                keys == self.volume_jobs.keys(),
                i <= keys.len(),
                ascends(keys, key_rank::<VolumeId>()),
                gathered(found, keys, i as int, eligible),
                n == found.len(),
                n <= i,
            decreases keys.len() - i,
        {
            let id = self.volume_jobs.key_at(i);
            proof {
                lemma_gather(found, keys, i as int, eligible);
            }
            if self.volume_jobs.row_at(i).pending {
                n = n + 1;
                proof {
                    found = found.push(id);
                }
            }
            i = i + 1;
        }
        proof {
            self.volume_jobs.lemma_keys();
            lemma_gathered_all(found, keys, eligible);
            lemma_how_many(found, eligible, key_rank::<VolumeId>());
        }
        n
    }

    /// Returns counts over the whole graph.
    pub fn stats(&self) -> (r: GraphResult<GraphStats>)
        requires
            self.wf(),
        ensures
            ({
                let bytes = total_size(
                    self@,
                    listing(live_files(self@), key_rank::<FileKey>()),
                );
                let pending = how_many(pending_path_jobs(self@)) + how_many(
                    pending_volume_jobs(self@),
                );
                &&& is_listing(
                    listing(live_files(self@), key_rank::<FileKey>()),
                    live_files(self@),
                    key_rank::<FileKey>(),
                )
                &&& match r {
                    Ok(stats) => {
                        &&& stats.volumes == self@.volumes.dom().len()
                        &&& stats.live_objects == how_many(live_objects(self@))
                        &&& stats.live_files == how_many(live_files(self@))
                        &&& stats.live_file_bytes == bytes
                        &&& stats.tombstoned_objects == how_many(tombstoned_objects(self@))
                        &&& stats.links == self@.links.dom().len()
                        &&& stats.pending_refresh_jobs == pending
                    },
                    Err(e) => e@ == ErrorModel::Storage(StorageFault::IntegerOverflow) && (bytes
                        > column_max() || pending > u64::MAX),
                }
            }),
    {
        let counts = match self.count_objects() {
            Some(counts) => counts,
            None => {
                return Err(GraphError::Storage(StorageFault::IntegerOverflow));
            },
        };
        let path_jobs: u64 = self.count_pending_path_jobs();
        let volume_jobs: u64 = self.count_pending_volume_jobs();
        let pending: u64 = match path_jobs.checked_add(volume_jobs) {
            Some(pending) => pending,
            None => {
                return Err(GraphError::Storage(StorageFault::IntegerOverflow));
            },
        };
        proof {
            self.volumes.lemma_count();
            self.links.lemma_count();
        }
        Ok(
            GraphStats {
                volumes: self.volumes.len() as u64,
                live_objects: counts.live,
                live_files: counts.files,
                live_file_bytes: counts.bytes,
                tombstoned_objects: counts.tombstoned,
                links: self.links.len() as u64,
                pending_refresh_jobs: pending,
            },
        )
    }

    /// Returns the lifecycle state of a volume.
    pub fn volume_state(&self, volume_id: VolumeId) -> (r: GraphResult<Option<VolumeState>>)
        requires
            self.wf(),
        ensures
            match r {
                Ok(Some(state)) => self@.volumes.dom().contains(volume_id) && state
                    == self@.volumes[volume_id].state,
                Ok(None) => !self@.volumes.dom().contains(volume_id),
                Err(_) => false,
            },
    {
        match self.volumes.get(&volume_id) {
            Some(row) => Ok(Some(row.state)),
            None => Ok(None),
        }
    }

    fn orphan_objects(&self) -> (r: Vec<FileKey>)
        requires
            self.tables_wf(),
        ensures
            is_listing(r@, orphans(self@), key_rank::<FileKey>()),
            r@ == listing(orphans(self@), key_rank::<FileKey>()),
    {
        let ghost eligible = orphans(self@);
        let ghost keys = self.objects.keys();
        let mut found: Vec<FileKey> = Vec::new();
        let mut i: usize = 0;
        proof {
            self.objects.lemma_keys();
        }
        while i < self.objects.len()
            invariant
                self.tables_wf(),
                eligible == orphans(self@),
                keys == self.objects.keys(),
                i <= keys.len(),
                ascends(keys, key_rank::<FileKey>()),
                gathered(found@, keys, i as int, eligible),
            decreases keys.len() - i,
        {
            let key = self.objects.key_at(i);
            proof {
                lemma_gather(found@, keys, i as int, eligible);
            }
            if !self.objects.row_at(i).tombstoned && !self.object_is_linked(key) {
                found.push(key);
            }
            i = i + 1;
        }
        proof {
            self.objects.lemma_keys();
            lemma_gathered_all(found@, keys, eligible);
        }
        found
    }

    fn parentless_links(&self) -> (r: Vec<FileLinkId>)
        requires
            self.tables_wf(),
        ensures
            is_listing(r@, parentless(self@), key_rank::<FileLinkId>()),
            r@ == listing(parentless(self@), key_rank::<FileLinkId>()),
    {
        let ghost eligible = parentless(self@);
        let ghost keys = self.links.keys();
        let mut found: Vec<FileLinkId> = Vec::new();
        let mut i: usize = 0;
        proof {
            self.links.lemma_keys();
        }
        while i < self.links.len()
            invariant
                self.tables_wf(),
                eligible == parentless(self@),
                keys == self.links.keys(),
                i <= keys.len(),
                ascends(keys, key_rank::<FileLinkId>()),
                gathered(found@, keys, i as int, eligible),
            decreases keys.len() - i,
        {
            let id = self.links.key_at(i);
            proof {
                lemma_gather(found@, keys, i as int, eligible);
            }
            let missing = match self.links.row_at(i).parent_key {
                Some(parent) => !self.objects.contains(&parent),
                None => false,
            };
            if missing {
                found.push(id);
            }
            i = i + 1;
        }
        proof {
            self.links.lemma_keys();
            lemma_gathered_all(found@, keys, eligible);
        }
        found
    }

    /// Returns the first integrity issues: live objects without a link, then links whose parent
    /// object is not known.
    pub fn audit_integrity(&self, limit: u32) -> (r: GraphResult<Vec<GraphIntegrityIssue>>)
        requires
            self.wf(),
        ensures
            r is Ok,
            ({
                let objects = listing(orphans(self@), key_rank::<FileKey>());
                let links = listing(parentless(self@), key_rank::<FileLinkId>());
                let issues = all_issues(self@, objects, links);
                &&& is_listing(objects, orphans(self@), key_rank::<FileKey>())
                &&& is_listing(links, parentless(self@), key_rank::<FileLinkId>())
                &&& r->Ok_0@ == if issues.len() <= limit {
                    issues
                } else {
                    issues.take(limit as int)
                }
            }),
    {
        let objects = self.orphan_objects();
        let links = self.parentless_links();
        let ghost issues = all_issues(self@, objects@, links@);
        let bound: usize = limit as usize;
        let mut r: Vec<GraphIntegrityIssue> = Vec::new();
        let mut i: usize = 0;
        while i < objects.len() && r.len() < bound
            invariant
                issues == all_issues(self@, objects@, links@),
                i <= objects@.len(),
                r@.len() == i,
                i <= bound,
                forall|x: int| 0 <= x < i ==> #[trigger] r@[x] == issues[x],
            decreases objects@.len() - i,
        {
            r.push(GraphIntegrityIssue::OrphanObject { object_key: objects[i] });
            i = i + 1;
        }
        let mut j: usize = 0;
        while j < links.len() && r.len() < bound
            invariant
                self.tables_wf(),
                issues == all_issues(self@, objects@, links@),
                is_listing(links@, parentless(self@), key_rank::<FileLinkId>()),
                i <= objects@.len(),
                i == objects@.len() || r@.len() == bound,
                j <= links@.len(),
                r@.len() == i + j,
                r@.len() <= bound,
                forall|x: int| 0 <= x < r@.len() ==> #[trigger] r@[x] == issues[x],
            decreases links@.len() - j,
        {
            assert(parentless(self@)(links@[j as int]));
            if let Some(row) = self.links.get(&links[j]) {
                if let Some(parent_key) = row.parent_key {
                    r.push(
                        GraphIntegrityIssue::MissingParent { file_link_id: links[j], parent_key },
                    );
                }
            }
            j = j + 1;
        }
        proof {
            if issues.len() <= limit {
                assert(r@ =~= issues);
            } else {
                assert(r@ =~= issues.take(limit as int));
            }
        }
        Ok(r)
    }
}

} // verus!
