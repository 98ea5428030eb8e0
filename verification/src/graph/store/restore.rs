//! Rows out of a graph and back into one, for storage.

use vstd::prelude::*;

use crate::catalog::ProviderCheckpoint;
use crate::graph::domain::ObservationScanPhase;
use crate::graph::error::{ErrorModel, GraphError, GraphResult};
use crate::graph::model::{column_max, ConsumerRow, GraphModel, ObjectRow, PathJobRow, VolumeJobRow};
use crate::graph::rows::{
    consumers_of, Consumers, DocumentRow, LinkRow, OutboxRow, SessionRow, VolumeRow,
};
use crate::graph::soundness::{collide, documents_current, documents_sound, outbox_sound, sound};
use crate::graph::store::FilesystemGraph;
use crate::ids::{DocumentId, FileKey, FileLinkId, JobId, MutationSeq, VolumeId};
use crate::table::{map_of, Table};
use crate::text::same_text;

verus! {

/// The largest value of a signed table column.
const COLUMN_MAX: u64 = 9_223_372_036_854_775_807;

/// Every row of a graph.
#[derive(Debug)]
pub struct GraphRows {
    /// Volumes.
    pub volumes: Vec<(VolumeId, VolumeRow)>,
    /// Checkpoints of the provider.
    pub checkpoints: Vec<(VolumeId, ProviderCheckpoint)>,
    /// Objects.
    pub objects: Vec<(FileKey, ObjectRow)>,
    /// Links.
    pub links: Vec<(FileLinkId, LinkRow)>,
    /// Queued refreshes of directories.
    pub path_jobs: Vec<(JobId, PathJobRow)>,
    /// The last identity of a queued refresh.
    pub last_job: i64,
    /// Queued refreshes of volumes.
    pub volume_jobs: Vec<(VolumeId, VolumeJobRow)>,
    /// Observations in progress.
    pub sessions: Vec<(VolumeId, SessionRow)>,
    /// Desired documents.
    pub documents: Vec<(DocumentId, DocumentRow)>,
    /// Changes waiting for the consumers.
    pub outbox: Vec<(MutationSeq, OutboxRow)>,
    /// The last sequence of a change.
    pub issued: u64,
    /// Progress of the consumers.
    pub consumers: Vec<(String, ConsumerRow)>,
}

impl View for GraphRows {
    type V = GraphModel;

    open spec fn view(&self) -> GraphModel {
        GraphModel {
            volumes: map_of(self.volumes@),
            checkpoints: map_of(self.checkpoints@),
            objects: map_of(self.objects@),
            links: map_of(self.links@),
            path_jobs: map_of(self.path_jobs@),
            last_job: self.last_job,
            volume_jobs: map_of(self.volume_jobs@),
            sessions: map_of(self.sessions@),
            documents: map_of(self.documents@),
            outbox: map_of(self.outbox@),
            issued: self.issued,
            consumers: consumers_of(self.consumers@),
        }
    }
}

fn same_place_rows(a: &LinkRow, b: &LinkRow) -> (r: bool)
    ensures
        r == collide(a@, b@),
{
    let same_parent = match (a.parent_key, b.parent_key) {
        (Some(x), Some(y)) => x == y,
        (None, None) => a.object_key.volume_id == b.object_key.volume_id,
        _ => false,
    };
    same_parent && same_text(a.name.as_str(), b.name.as_str())
}

proof fn lemma_no_gap(m: GraphModel, s: int, t: int)
    requires
        1 <= s <= t <= m.issued,
        m.outbox.dom().contains(MutationSeq(s as u64)),
        forall|q: MutationSeq| #[trigger]
            m.outbox.dom().contains(q) && q.0 < m.issued ==> m.outbox.dom().contains(
                MutationSeq((q.0 + 1) as u64),
            ),
    ensures
        m.outbox.dom().contains(MutationSeq(t as u64)),
    decreases t - s,
{
    if s < t {
        assert(m.outbox.dom().contains(MutationSeq((s + 1) as u64)));
        lemma_no_gap(m, s + 1, t);
    }
}

impl FilesystemGraph {
    fn objects_are_sound(&self) -> (r: bool)
        requires
            self.tables_wf(),
        ensures
            r == forall|k: FileKey| #[trigger]
                self@.objects.dom().contains(k) ==> {
                    &&& self@.volumes.dom().contains(k.volume_id)
                    &&& self@.objects[k].metadata.size <= column_max()
                    &&& self@.objects[k].observed <= column_max()
                },
    {
        let ghost keys = self.objects.keys();
        let mut i: usize = 0;
        proof {
            self.objects.lemma_keys();
        }
        while i < self.objects.len()
            invariant
                self.tables_wf(),
                keys == self.objects.keys(),
                i <= keys.len(),
                forall|j: int|
                    0 <= j < i ==> {
                        let k = #[trigger] keys[j];
                        &&& self@.volumes.dom().contains(k.volume_id)
                        &&& self@.objects[k].metadata.size <= column_max()
                        &&& self@.objects[k].observed <= column_max()
                    },
            decreases keys.len() - i,
        {
            let key = self.objects.key_at(i);
            let row = self.objects.row_at(i);
            if !self.volumes.contains(&key.volume_id) || row.metadata.size > COLUMN_MAX
                || row.observed > COLUMN_MAX {
                assert(self@.objects.dom().contains(key));
                return false;
            }
            i = i + 1;
        }
        true
    }

    fn links_are_sound(&self) -> (r: bool)
        requires
            self.tables_wf(),
        ensures
            r == {
                &&& forall|l: FileLinkId| #[trigger]
                    self@.links.dom().contains(l) ==> {
                        &&& self@.objects.dom().contains(self@.links[l].object_key)
                        &&& !self@.objects[self@.links[l].object_key].tombstoned
                        &&& self@.links[l].observed <= column_max()
                    }
                &&& forall|a: FileLinkId, b: FileLinkId| #[trigger]
                    self@.links.dom().contains(a) && #[trigger] self@.links.dom().contains(b) && a
                        != b ==> !collide(self@.links[a], self@.links[b])
            },
    {
        let ghost keys = self.links.keys();
        let ghost m = self@;
        let mut i: usize = 0;
        proof {
            self.links.lemma_keys();
        }
        while i < self.links.len()
            invariant
                self.tables_wf(),
                m == self@,
                keys == self.links.keys(),
                i <= keys.len(),
                forall|j: int, k: int|
                    0 <= j < k < keys.len() ==> (#[trigger] keys[j]).value != (
                    #[trigger] keys[k]).value,
                forall|j: int| 0 <= j < keys.len() ==> m.links.dom().contains(#[trigger] keys[j]),
                forall|j: int|
                    0 <= j < i ==> {
                        let l = #[trigger] keys[j];
                        &&& m.objects.dom().contains(m.links[l].object_key)
                        &&& !m.objects[m.links[l].object_key].tombstoned
                        &&& m.links[l].observed <= column_max()
                    },
                forall|j: int, k: int|
                    0 <= j < i && 0 <= k < keys.len() && j != k ==> !collide(
                        m.links[#[trigger] keys[j]],
                        m.links[#[trigger] keys[k]],
                    ),
            decreases keys.len() - i,
        {
            let key = self.links.key_at(i);
            let row = self.links.row_at(i);
            let live = match self.objects.get(&row.object_key) {
                Some(object) => !object.tombstoned,
                None => false,
            };
            if !live || row.observed > COLUMN_MAX {
                assert(m.links.dom().contains(key));
                return false;
            }
            let mut j: usize = 0;
            while j < self.links.len()
                invariant
                    self.tables_wf(),
                    m == self@,
                    keys == self.links.keys(),
                    i < keys.len(),
                    j <= keys.len(),
                    row@ == m.links[keys[i as int]],
                    forall|a: int, b: int|
                        0 <= a < b < keys.len() ==> (#[trigger] keys[a]).value != (
                        #[trigger] keys[b]).value,
                    forall|a: int|
                        0 <= a < keys.len() ==> m.links.dom().contains(#[trigger] keys[a]),
                    forall|k: int|
                        0 <= k < j && k != i ==> !collide(
                            m.links[keys[i as int]],
                            m.links[#[trigger] keys[k]],
                        ),
                decreases keys.len() - j,
            {
                if j != i && same_place_rows(row, self.links.row_at(j)) {
                    proof {
                        let (a, b) = (keys[i as int], keys[j as int]);
                        assert(m.links.dom().contains(a) && m.links.dom().contains(b));
                        if i < j {
                            assert(a.value != b.value);
                        } else {
                            assert(b.value != a.value);
                        }
                        assert(collide(m.links[a], m.links[b]));
                    }
                    return false;
                }
                j = j + 1;
            }
            i = i + 1;
        }
        true
    }

    fn queues_are_sound(&self) -> (r: bool)
        requires
            self.tables_wf(),
        ensures
            r == {
                &&& 0 <= self@.last_job
                &&& forall|j: JobId| #[trigger]
                    self@.path_jobs.dom().contains(j) ==> 1 <= j.0 <= self@.last_job
                        && self@.objects.dom().contains(self@.path_jobs[j].root_object)
                &&& forall|a: JobId, b: JobId| #[trigger]
                    self@.path_jobs.dom().contains(a) && #[trigger] self@.path_jobs.dom().contains(
                        b,
                    ) && self@.path_jobs[a].pending && self@.path_jobs[b].pending
                        && self@.path_jobs[a].root_object == self@.path_jobs[b].root_object ==> a
                        == b
            },
    {
        if self.last_job < 0 {
            return false;
        }
        let ghost keys = self.path_jobs.keys();
        let ghost m = self@;
        let mut i: usize = 0;
        proof {
            self.path_jobs.lemma_keys();
        }
        while i < self.path_jobs.len()
            invariant
                self.tables_wf(),
                m == self@,
                keys == self.path_jobs.keys(),
                i <= keys.len(),
                forall|j: int, k: int|
                    0 <= j < k < keys.len() ==> (#[trigger] keys[j]).0 < (#[trigger] keys[k]).0,
                forall|j: int|
                    0 <= j < keys.len() ==> m.path_jobs.dom().contains(#[trigger] keys[j]),
                forall|j: int|
                    0 <= j < i ==> 1 <= (#[trigger] keys[j]).0 <= m.last_job
                        && m.objects.dom().contains(m.path_jobs[keys[j]].root_object),
                forall|j: int, k: int|
                    0 <= j < i && 0 <= k < keys.len() && m.path_jobs[#[trigger] keys[j]].pending
                        && m.path_jobs[#[trigger] keys[k]].pending
                        && m.path_jobs[keys[j]].root_object == m.path_jobs[keys[k]].root_object
                        ==> j == k,
            decreases keys.len() - i,
        {
            let key = self.path_jobs.key_at(i);
            let row = self.path_jobs.row_at(i);
            if key.0 < 1 || key.0 > self.last_job || !self.objects.contains(&row.root_object) {
                assert(m.path_jobs.dom().contains(key));
                return false;
            }
            let mut j: usize = 0;
            while j < self.path_jobs.len()
                invariant
                    self.tables_wf(),
                    m == self@,
                    keys == self.path_jobs.keys(),
                    i < keys.len(),
                    j <= keys.len(),
                    *row == m.path_jobs[keys[i as int]],
                    forall|a: int, b: int|
                        0 <= a < b < keys.len() ==> (#[trigger] keys[a]).0 < (#[trigger] keys[b]).0,
                    forall|a: int|
                        0 <= a < keys.len() ==> m.path_jobs.dom().contains(#[trigger] keys[a]),
                    forall|k: int|
                        0 <= k < j && m.path_jobs[keys[i as int]].pending && m.path_jobs[
                            #[trigger] keys[k]].pending && m.path_jobs[keys[i as int]].root_object
                            == m.path_jobs[keys[k]].root_object ==> k == i,
                decreases keys.len() - j,
            {
                let other = self.path_jobs.row_at(j);
                if j != i && row.pending && other.pending && row.root_object
                    == other.root_object {
                    proof {
                        let (a, b) = (keys[i as int], keys[j as int]);
                        assert(m.path_jobs.dom().contains(a) && m.path_jobs.dom().contains(b));
                        if i < j {
                            assert(a.0 < b.0);
                        } else {
                            assert(b.0 < a.0);
                        }
                    }
                    return false;
                }
                j = j + 1;
            }
            i = i + 1;
        }
        true
    }

    fn volumes_are_sound(&self) -> (r: bool)
        requires
            self.tables_wf(),
        ensures
            r == forall|v: VolumeId| #[trigger]
                self@.volumes.dom().contains(v) ==> self@.volumes[v].generation <= column_max()
                    && self@.volumes[v].descriptor.volume_id == v,
    {
        let ghost keys = self.volumes.keys();
        let mut i: usize = 0;
        proof {
            self.volumes.lemma_keys();
        }
        while i < self.volumes.len()
            invariant
                self.tables_wf(),
                keys == self.volumes.keys(),
                i <= keys.len(),
                forall|j: int|
                    0 <= j < i ==> self@.volumes[#[trigger] keys[j]].generation <= column_max()
                        && self@.volumes[keys[j]].descriptor.volume_id == keys[j],
            decreases keys.len() - i,
        {
            let key = self.volumes.key_at(i);
            let row = self.volumes.row_at(i);
            if row.generation > COLUMN_MAX || row.descriptor.volume_id != key {
                assert(self@.volumes.dom().contains(key));
                assert(row@ == self@.volumes[key]);
                return false;
            }
            assert(row@ == self@.volumes[key]);
            i = i + 1;
        }
        true
    }

    fn volume_jobs_are_sound(&self) -> (r: bool)
        requires
            self.tables_wf(),
        ensures
            r == {
                &&& forall|v: VolumeId| #[trigger]
                    self@.volume_jobs.dom().contains(v) ==> self@.volumes.dom().contains(v)
                &&& forall|v: VolumeId| #[trigger]
                    self@.checkpoints.dom().contains(v) ==> self@.checkpoints[v].volume_id == v
            },
    {
        let ghost keys = self.volume_jobs.keys();
        let mut i: usize = 0;
        proof {
            self.volume_jobs.lemma_keys();
            self.checkpoints.lemma_keys();
        }
        while i < self.volume_jobs.len()
            invariant
                self.tables_wf(),
                keys == self.volume_jobs.keys(),
                i <= keys.len(),
                forall|j: int| 0 <= j < i ==> self@.volumes.dom().contains(#[trigger] keys[j]),
            decreases keys.len() - i,
        {
            let key = self.volume_jobs.key_at(i);
            if !self.volumes.contains(&key) {
                assert(self@.volume_jobs.dom().contains(key));
                return false;
            }
            i = i + 1;
        }
        let ghost known = self.checkpoints.keys();
        let mut n: usize = 0;
        while n < self.checkpoints.len()
            invariant
                self.tables_wf(),
                known == self.checkpoints.keys(),
                n <= known.len(),
                forall|j: int|
                    0 <= j < n ==> self@.checkpoints[#[trigger] known[j]].volume_id == known[j],
            decreases known.len() - n,
        {
            let key = self.checkpoints.key_at(n);
            let row = self.checkpoints.row_at(n);
            assert(row@ == self@.checkpoints[key]);
            if row.volume_id != key {
                assert(self@.checkpoints.dom().contains(key));
                return false;
            }
            n = n + 1;
        }
        true
    }

    fn sessions_are_sound(&self) -> (r: bool)
        requires
            self.tables_wf(),
        ensures
            r == forall|v: VolumeId| #[trigger]
                self@.sessions.dom().contains(v) ==> self@.volumes.dom().contains(v)
                    && self@.sessions[v].scan_generation <= column_max() && (self@.sessions[v].phase
                    == ObservationScanPhase::Scanning <==> self@.sessions[v].staged is None) && (
                self@.sessions[v].staged matches Some(c) ==> c.volume_id == v),
    {
        let ghost keys = self.sessions.keys();
        let mut i: usize = 0;
        proof {
            self.sessions.lemma_keys();
        }
        while i < self.sessions.len()
            invariant
                self.tables_wf(),
                keys == self.sessions.keys(),
                i <= keys.len(),
                forall|j: int|
                    0 <= j < i ==> {
                        let v = #[trigger] keys[j];
                        &&& self@.volumes.dom().contains(v)
                        &&& self@.sessions[v].scan_generation <= column_max()
                        &&& (self@.sessions[v].phase == ObservationScanPhase::Scanning
                            <==> self@.sessions[v].staged is None)
                        &&& (self@.sessions[v].staged matches Some(c) ==> c.volume_id == v)
                    },
            decreases keys.len() - i,
        {
            let key = self.sessions.key_at(i);
            let row = self.sessions.row_at(i);
            assert(row@ == self@.sessions[key]);
            let scanning = row.phase == ObservationScanPhase::Scanning;
            let staged = match &row.staged {
                Some(checkpoint) => !scanning && checkpoint.volume_id == key,
                None => scanning,
            };
            if !self.volumes.contains(&key) || row.scan_generation > COLUMN_MAX || !staged {
                assert(self@.sessions.dom().contains(key));
                return false;
            }
            i = i + 1;
        }
        true
    }

    fn outbox_is_sound(&self) -> (r: bool)
        requires
            self.tables_wf(),
        ensures
            r == outbox_sound(self@),
    {
        if self.issued > COLUMN_MAX {
            return false;
        }
        if !self.consumers.within(self.issued, COLUMN_MAX) {
            proof {
                let c = choose|c: Seq<char>| #[trigger]
                    self.consumers@.dom().contains(c) && !(self.consumers@[c].last_sequence
                        <= self.issued && self.consumers@[c].index_generation <= COLUMN_MAX);
                assert(self@.consumers.dom().contains(c));
            }
            return false;
        }
        let ghost keys = self.outbox.keys();
        let ghost m = self@;
        let mut i: usize = 0;
        proof {
            self.outbox.lemma_keys();
        }
        while i < self.outbox.len()
            invariant
                self.tables_wf(),
                m == self@,
                keys == self.outbox.keys(),
                i <= keys.len(),
                m.issued <= column_max(),
                forall|j: int|
                    0 <= j < i ==> {
                        let s = #[trigger] keys[j];
                        &&& 1 <= s.0 <= m.issued
                        &&& s.0 < m.issued ==> m.outbox.dom().contains(
                            MutationSeq((s.0 + 1) as u64),
                        )
                    },
            decreases keys.len() - i,
        {
            let key = self.outbox.key_at(i);
            if key.0 < 1 || key.0 > self.issued {
                assert(m.outbox.dom().contains(key));
                return false;
            }
            if key.0 < self.issued && !self.outbox.contains(&MutationSeq(key.0 + 1)) {
                proof {
                    let next = MutationSeq((key.0 + 1) as u64);
                    assert(m.outbox.dom().contains(key) && key.0 <= next.0 <= m.issued);
                    assert(!m.outbox.dom().contains(next));
                }
                return false;
            }
            i = i + 1;
        }
        proof {
            assert forall|q: MutationSeq| #[trigger]
                m.outbox.dom().contains(q) && q.0 < m.issued implies m.outbox.dom().contains(
                MutationSeq((q.0 + 1) as u64),
            ) by {
                let j = choose|j: int| 0 <= j < keys.len() && #[trigger] keys[j] == q;
                assert(keys[j] == q);
            }
            assert forall|s: MutationSeq| #[trigger] m.outbox.dom().contains(s) implies 1 <= s.0
                <= m.issued by {
                let j = choose|j: int| 0 <= j < keys.len() && #[trigger] keys[j] == s;
                assert(keys[j] == s);
            }
            assert forall|s: MutationSeq, t: MutationSeq| #[trigger]
                m.outbox.dom().contains(s) && s.0 <= t.0 <= m.issued implies
                #[trigger] m.outbox.dom().contains(t) by {
                lemma_no_gap(m, s.0 as int, t.0 as int);
            }
        }
        true
    }

    fn documents_are_sound(&self) -> (r: bool)
        requires
            self.tables_wf(),
        ensures
            r == (documents_sound(self@) && documents_current(self@, Set::empty())),
    {
        let ghost keys = self.documents.keys();
        let mut i: usize = 0;
        proof {
            self.documents.lemma_keys();
        }
        while i < self.documents.len()
            invariant
                self.tables_wf(),
                keys == self.documents.keys(),
                i <= keys.len(),
                forall|j: int|
                    0 <= j < i ==> {
                        let d = #[trigger] keys[j];
                        &&& self@.documents[d].file_link_id.value == d.value
                        &&& self@.objects.dom().contains(self@.documents[d].object_key)
                        &&& self@.documents[d].version <= column_max()
                        &&& self@.links.dom().contains(self@.documents[d].file_link_id)
                    },
            decreases keys.len() - i,
        {
            let key = self.documents.key_at(i);
            let row = self.documents.row_at(i);
            assert(row@ == self@.documents[key]);
            if row.file_link_id.value != key.value || !self.objects.contains(&row.object_key)
                || row.version > COLUMN_MAX || !self.links.contains(&row.file_link_id) {
                assert(self@.documents.dom().contains(key));
                return false;
            }
            i = i + 1;
        }
        true
    }

    /// Whether the rows agree with one another.
    fn is_sound(&self) -> (r: bool)
        requires
            self.tables_wf(),
        ensures
            r == sound(self@),
    {
        self.volumes_are_sound() && self.objects_are_sound() && self.links_are_sound()
            && self.queues_are_sound() && self.volume_jobs_are_sound() && self.sessions_are_sound()
            && self.outbox_is_sound() && self.documents_are_sound()
    }

    /// Every row of the graph, each table in key order.
    pub fn rows(&self) -> (r: GraphRows)
        requires
            self.wf(),
        ensures
            r@ == self@,
    {
        GraphRows {
            volumes: self.volumes.to_entries(),
            checkpoints: self.checkpoints.to_entries(),
            objects: self.objects.to_entries(),
            links: self.links.to_entries(),
            path_jobs: self.path_jobs.to_entries(),
            last_job: self.last_job,
            volume_jobs: self.volume_jobs.to_entries(),
            sessions: self.sessions.to_entries(),
            documents: self.documents.to_entries(),
            outbox: self.outbox.to_entries(),
            issued: self.issued,
            consumers: self.consumers.to_entries(),
        }
    }

    /// The graph with these rows, which have to agree with one another.
    pub fn restore(rows: &GraphRows) -> (r: GraphResult<Self>)
        ensures
            match r {
                Ok(graph) => graph.wf() && graph@ == rows@,
                Err(error) => !sound(rows@) && error@ == ErrorModel::Invariant(
                    "stored graph rows do not agree with one another"@,
                ),
            },
    {
        let graph = FilesystemGraph {
            volumes: Table::from_entries(&rows.volumes),
            checkpoints: Table::from_entries(&rows.checkpoints),
            objects: Table::from_entries(&rows.objects),
            links: Table::from_entries(&rows.links),
            path_jobs: Table::from_entries(&rows.path_jobs),
            last_job: rows.last_job,
            volume_jobs: Table::from_entries(&rows.volume_jobs),
            sessions: Table::from_entries(&rows.sessions),
            documents: Table::from_entries(&rows.documents),
            outbox: Table::from_entries(&rows.outbox),
            issued: rows.issued,
            consumers: Consumers::from_entries(&rows.consumers),
        };
        if graph.is_sound() {
            Ok(graph)
        } else {
            Err(
                GraphError::Invariant(
                    "stored graph rows do not agree with one another".to_owned(),
                ),
            )
        }
    }
}

/// A restart loses nothing: the rows that a graph was stored as are rows that a graph is restored
/// from, with the same content.
pub proof fn stored_rows_are_restored(graph: FilesystemGraph, rows: GraphRows)
    requires
        graph.wf(),
        rows@ == graph@,
    ensures
        sound(rows@),
{
}

} // verus!
