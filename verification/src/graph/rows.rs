//! Rows of the graph tables.

use vstd::prelude::*;

use crate::catalog::{
    CatalogDocument, IndexMutation, ProviderCheckpoint, ReconciliationReason, VolumeDescriptor,
};
use crate::graph::domain::{ObservationScanMode, ObservationScanPhase, VolumeState};
use crate::graph::model::{
    ConsumerRow, DocumentRowModel, LinkModel, ObjectRow, OutboxModel, PathJobRow, PayloadModel,
    SessionModel, VolumeJobRow, VolumeModel,
};
use crate::ids::{DocumentId, FileKey, FileLinkId};
use crate::table::Row;
use crate::text::copy_bytes;

verus! {

/// A known volume.
#[derive(Debug)]
pub struct VolumeRow {
    /// Latest description.
    pub descriptor: VolumeDescriptor,
    /// Lifecycle state.
    pub state: VolumeState,
    /// Why a reconciliation is required, where one is.
    pub reason: Option<ReconciliationReason>,
    /// Generation of the last committed change.
    pub generation: u64,
}

impl View for VolumeRow {
    type V = VolumeModel;

    open spec fn view(&self) -> VolumeModel {
        VolumeModel {
            descriptor: self.descriptor@,
            state: self.state,
            reason: self.reason,
            generation: self.generation,
        }
    }
}

impl Row for VolumeRow {
    fn duplicate(&self) -> (r: Self) {
        VolumeRow {
            descriptor: self.descriptor.duplicate(),
            state: self.state,
            reason: self.reason,
            generation: self.generation,
        }
    }
}

impl Row for ProviderCheckpoint {
    fn duplicate(&self) -> (r: Self) {
        ProviderCheckpoint {
            provider_id: self.provider_id.clone(),
            format_version: self.format_version,
            volume_id: self.volume_id,
            opaque: copy_bytes(&self.opaque),
        }
    }
}

impl View for ObjectRow {
    type V = ObjectRow;

    open spec fn view(&self) -> ObjectRow {
        *self
    }
}

impl Row for ObjectRow {
    fn duplicate(&self) -> (r: Self) {
        *self
    }
}

/// A current namespace link.
#[derive(Debug)]
pub struct LinkRow {
    /// The object it names.
    pub object_key: FileKey,
    /// The directory that holds it.
    pub parent_key: Option<FileKey>,
    /// Its name there.
    pub name: String,
    /// Whether traversal stops here.
    pub traversal_boundary: bool,
    /// Generation of the last observation.
    pub observed: u64,
}

impl View for LinkRow {
    type V = LinkModel;

    open spec fn view(&self) -> LinkModel {
        LinkModel {
            object_key: self.object_key,
            parent_key: self.parent_key,
            name: self.name@,
            traversal_boundary: self.traversal_boundary,
            observed: self.observed,
        }
    }
}

impl Row for LinkRow {
    fn duplicate(&self) -> (r: Self) {
        LinkRow {
            object_key: self.object_key,
            parent_key: self.parent_key,
            name: self.name.clone(),
            traversal_boundary: self.traversal_boundary,
            observed: self.observed,
        }
    }
}

impl View for PathJobRow {
    type V = PathJobRow;

    open spec fn view(&self) -> PathJobRow {
        *self
    }
}

impl Row for PathJobRow {
    fn duplicate(&self) -> (r: Self) {
        *self
    }
}

impl View for VolumeJobRow {
    type V = VolumeJobRow;

    open spec fn view(&self) -> VolumeJobRow {
        *self
    }
}

impl Row for VolumeJobRow {
    fn duplicate(&self) -> (r: Self) {
        *self
    }
}

/// A full-volume observation in progress.
#[derive(Debug)]
pub struct SessionRow {
    /// First generation of the scan.
    pub scan_generation: u64,
    /// Bootstrap or recovery.
    pub mode: ObservationScanMode,
    /// How far it is.
    pub phase: ObservationScanPhase,
    /// Checkpoint that becomes current when the sweeps are done.
    pub staged: Option<ProviderCheckpoint>,
}

impl View for SessionRow {
    type V = SessionModel;

    open spec fn view(&self) -> SessionModel {
        SessionModel {
            scan_generation: self.scan_generation,
            mode: self.mode,
            phase: self.phase,
            staged: match self.staged {
                Some(checkpoint) => Some(checkpoint@),
                None => None,
            },
        }
    }
}

impl Row for SessionRow {
    fn duplicate(&self) -> (r: Self) {
        SessionRow {
            scan_generation: self.scan_generation,
            mode: self.mode,
            phase: self.phase,
            staged: match &self.staged {
                Some(checkpoint) => Some(ProviderCheckpoint::duplicate(checkpoint)),
                None => None,
            },
        }
    }
}

/// What a document row stores.
#[derive(Debug)]
pub enum DocumentPayload {
    /// The resolved path and the fingerprint of the content; the rest is read from the graph.
    Compact {
        /// Display path.
        path: String,
        /// Fingerprint of the content.
        fingerprint: Vec<u8>,
    },
    /// A complete document, as earlier schema versions stored it.
    Legacy {
        /// The document.
        document: CatalogDocument,
    },
}

impl View for DocumentPayload {
    type V = PayloadModel;

    open spec fn view(&self) -> PayloadModel {
        match self {
            DocumentPayload::Compact { path, fingerprint } => PayloadModel::Compact {
                path: path@,
                fingerprint: fingerprint@,
            },
            DocumentPayload::Legacy { document } => PayloadModel::Legacy { document: document@ },
        }
    }
}

/// A desired catalog document.
#[derive(Debug)]
pub struct DocumentRow {
    /// The object.
    pub object_key: FileKey,
    /// The link.
    pub file_link_id: FileLinkId,
    /// Version of the content.
    pub version: u64,
    /// The content.
    pub payload: DocumentPayload,
}

impl View for DocumentRow {
    type V = DocumentRowModel;

    open spec fn view(&self) -> DocumentRowModel {
        DocumentRowModel {
            object_key: self.object_key,
            file_link_id: self.file_link_id,
            version: self.version,
            payload: self.payload@,
        }
    }
}

impl Row for DocumentRow {
    fn duplicate(&self) -> (r: Self) {
        let payload = match &self.payload {
            DocumentPayload::Compact { path, fingerprint } => DocumentPayload::Compact {
                path: path.clone(),
                fingerprint: copy_bytes(fingerprint),
            },
            DocumentPayload::Legacy { document } => DocumentPayload::Legacy {
                document: document.duplicate(),
            },
        };
        DocumentRow {
            object_key: self.object_key,
            file_link_id: self.file_link_id,
            version: self.version,
            payload,
        }
    }
}

/// A change waiting for the consumers.
#[derive(Debug)]
pub struct OutboxRow {
    /// The document it changes.
    pub document_id: DocumentId,
    /// Version of the content.
    pub document_version: u64,
    /// The change.
    pub mutation: IndexMutation,
}

impl View for OutboxRow {
    type V = OutboxModel;

    open spec fn view(&self) -> OutboxModel {
        OutboxModel {
            document_id: self.document_id,
            document_version: self.document_version,
            mutation: self.mutation@,
        }
    }
}

impl Row for OutboxRow {
    fn duplicate(&self) -> (r: Self) {
        OutboxRow {
            document_id: self.document_id,
            document_version: self.document_version,
            mutation: self.mutation.duplicate(),
        }
    }
}

/// Progress of the consumers, by name.
pub struct Consumers {
    entries: Vec<(String, ConsumerRow)>,
}

impl View for Consumers {
    type V = Map<Seq<char>, ConsumerRow>;

    closed spec fn view(&self) -> Map<Seq<char>, ConsumerRow> {
        Map::new(
            |name: Seq<char>| self.holds(name),
            |name: Seq<char>| self.entries@[self.index_of(name)].1,
        )
    }
}

impl Consumers {
    /// No name occurs twice.
    pub closed spec fn wf(self) -> bool {
        forall|i: int, j: int|
            0 <= i < j < self.entries@.len() ==> (#[trigger] self.entries@[i]).0@ != (
            #[trigger] self.entries@[j]).0@
    }

    closed spec fn holds(self, name: Seq<char>) -> bool {
        exists|i: int| 0 <= i < self.entries@.len() && (#[trigger] self.entries@[i]).0@ == name
    }

    closed spec fn index_of(self, name: Seq<char>) -> int {
        choose|i: int| 0 <= i < self.entries@.len() && (#[trigger] self.entries@[i]).0@ == name
    }

    proof fn lemma_at(self, i: int)
        requires
            self.wf(),
            0 <= i < self.entries@.len(),
        ensures
            self@.dom().contains(self.entries@[i].0@),
            self@[self.entries@[i].0@] == self.entries@[i].1,
    {
        let name = self.entries@[i].0@;
        let j = self.index_of(name);
        assert(self.holds(name));
        if i < j {
            assert(self.entries@[i].0@ != self.entries@[j].0@);
        }
        if j < i {
            assert(self.entries@[j].0@ != self.entries@[i].0@);
        }
    }

    /// No consumers.
    pub fn new() -> (r: Self)
        ensures
            r.wf(),
            r@ == Map::<Seq<char>, ConsumerRow>::empty(),
    {
        let r = Consumers { entries: Vec::new() };
        assert(r@ =~= Map::<Seq<char>, ConsumerRow>::empty()) by {
            assert forall|name: Seq<char>| !r@.dom().contains(name) by {
                assert(!r.holds(name));
            }
        }
        r
    }

    /// Whether no consumer is registered.
    pub fn is_empty(&self) -> (r: bool)
        requires
            self.wf(),
        ensures
            r == (self@.dom() == Set::<Seq<char>>::empty()),
    {
        proof {
            if self.entries@.len() == 0 {
                assert(self@.dom() =~= Set::<Seq<char>>::empty()) by {
                    assert forall|name: Seq<char>| !self@.dom().contains(name) by {
                        assert(!self.holds(name));
                    }
                }
            } else {
                self.lemma_at(0);
            }
        }
        self.entries.len() == 0
    }

    fn position(&self, name: &str) -> (r: Option<usize>)
        requires
            self.wf(),
        ensures
            match r {
                Some(at) => at < self.entries@.len() && self.entries@[at as int].0@ == name@
                    && self@.dom().contains(name@) && self@[name@] == self.entries@[at as int].1,
                None => !self@.dom().contains(name@),
            },
    {
        let mut i: usize = 0;
        while i < self.entries.len()
            invariant
                self.wf(),
                i <= self.entries@.len(),
                forall|j: int| 0 <= j < i ==> (#[trigger] self.entries@[j]).0@ != name@,
            decreases self.entries@.len() - i,
        {
            if crate::text::same_text(self.entries[i].0.as_str(), name) {
                proof {
                    self.lemma_at(i as int);
                }
                return Some(i);
            }
            i = i + 1;
        }
        assert(!self.holds(name@));
        None
    }

    /// The progress of a consumer.
    pub fn get(&self, name: &str) -> (r: Option<ConsumerRow>)
        requires
            self.wf(),
        ensures
            match r {
                Some(row) => self@.dom().contains(name@) && row == self@[name@],
                None => !self@.dom().contains(name@),
            },
    {
        match self.position(name) {
            Some(at) => Some(self.entries[at].1),
            None => None,
        }
    }

    /// Registers a consumer, or replaces its progress.
    pub fn put(&mut self, name: &str, row: ConsumerRow)
        requires
            old(self).wf(),
        ensures
            final(self).wf(),
            final(self)@ == old(self)@.insert(name@, row),
    {
        let ghost before = *self;
        match self.position(name) {
            Some(at) => {
                let key = name.to_owned();
                self.entries.set(at, (key, row));
                proof {
                    assert(self.entries@ == before.entries@.update(at as int, (key, row)));
                    assert forall|i: int, j: int| 0 <= i < j < self.entries@.len() implies (
                    #[trigger] self.entries@[i]).0@ != (#[trigger] self.entries@[j]).0@ by {
                        assert(before.entries@[i].0@ != before.entries@[j].0@);
                    }
                    assert forall|n: Seq<char>| self.holds(n) == (before.holds(n) || n == name@) by {
                        if self.holds(n) {
                            let i = self.index_of(n);
                            assert(before.entries@[i].0@ == n);
                        }
                        if before.holds(n) {
                            let i = before.index_of(n);
                            assert(self.entries@[i].0@ == n);
                        }
                        assert(self.entries@[at as int].0@ == name@);
                    }
                    assert forall|n: Seq<char>| before.holds(n) && n != name@ implies self@[n]
                        == before@[n] by {
                        let i = before.index_of(n);
                        assert(before.entries@[i].0@ == n);
                        before.lemma_at(i);
                        assert(self.entries@[i] == before.entries@[i]);
                        self.lemma_at(i);
                    }
                    self.lemma_at(at as int);
                    assert(self@ =~= before@.insert(name@, row));
                }
            },
            None => {
                let key = name.to_owned();
                self.entries.push((key, row));
                proof {
                    let last = before.entries@.len() as int;
                    assert forall|i: int, j: int| 0 <= i < j < self.entries@.len() implies (
                    #[trigger] self.entries@[i]).0@ != (#[trigger] self.entries@[j]).0@ by {
                        if j == last {
                            before.lemma_at(i);
                        } else {
                            assert(before.entries@[i].0@ != before.entries@[j].0@);
                        }
                    }
                    assert forall|n: Seq<char>| self.holds(n) == (before.holds(n) || n == name@) by {
                        if self.holds(n) {
                            let i = self.index_of(n);
                            if i < last {
                                assert(before.entries@[i].0@ == n);
                            }
                        }
                        if before.holds(n) {
                            let i = before.index_of(n);
                            assert(self.entries@[i].0@ == n);
                        }
                        assert(self.entries@[last].0@ == name@);
                    }
                    assert forall|n: Seq<char>| before.holds(n) && n != name@ implies self@[n]
                        == before@[n] by {
                        let i = before.index_of(n);
                        assert(before.entries@[i].0@ == n);
                        before.lemma_at(i);
                        assert(self.entries@[i] == before.entries@[i]);
                        self.lemma_at(i);
                    }
                    self.lemma_at(last);
                    assert(self@ =~= before@.insert(name@, row));
                }
            },
        }
    }

    /// Forgets a consumer, and says whether it was registered.
    pub fn erase(&mut self, name: &str) -> (removed: bool)
        requires
            old(self).wf(),
        ensures
            final(self).wf(),
            removed == old(self)@.dom().contains(name@),
            final(self)@ == old(self)@.remove(name@),
    {
        let ghost before = *self;
        match self.position(name) {
            Some(at) => {
                self.entries.remove(at);
                proof {
                    assert forall|i: int, j: int| 0 <= i < j < self.entries@.len() implies (
                    #[trigger] self.entries@[i]).0@ != (#[trigger] self.entries@[j]).0@ by {
                        let bi = if i < at { i } else { i + 1 };
                        let bj = if j < at { j } else { j + 1 };
                        assert(self.entries@[i] == before.entries@[bi]);
                        assert(self.entries@[j] == before.entries@[bj]);
                    }
                    assert forall|n: Seq<char>| self.holds(n) == (before.holds(n) && n != name@) by {
                        if self.holds(n) {
                            let i = self.index_of(n);
                            let b = if i < at { i } else { i + 1 };
                            assert(before.entries@[b] == self.entries@[i]);
                            if b < at {
                                assert(before.entries@[b].0@ != before.entries@[at as int].0@);
                            } else {
                                assert(before.entries@[at as int].0@ != before.entries@[b].0@);
                            }
                        }
                        if before.holds(n) && n != name@ {
                            let i = before.index_of(n);
                            let k = if i < at { i } else { i - 1 };
                            assert(self.entries@[k] == before.entries@[i]);
                        }
                    }
                    assert forall|n: Seq<char>| self.holds(n) implies self@[n] == before@[n] by {
                        let i = self.index_of(n);
                        self.lemma_at(i);
                        let b = if i < at { i } else { i + 1 };
                        assert(before.entries@[b] == self.entries@[i]);
                        before.lemma_at(b);
                    }
                    assert(self@ =~= before@.remove(name@));
                }
                true
            },
            None => {
                assert(self@ =~= before@.remove(name@));
                false
            },
        }
    }

    /// The least sequence that every consumer has taken over; none without consumers.
    pub fn minimum(&self) -> (r: Option<u64>)
        requires
            self.wf(),
        ensures
            match r {
                Some(least) => {
                    &&& exists|c: Seq<char>| #[trigger]
                        self@.dom().contains(c) && self@[c].last_sequence == least
                    &&& forall|c: Seq<char>| #[trigger]
                        self@.dom().contains(c) ==> least <= self@[c].last_sequence
                },
                None => self@.dom() == Set::<Seq<char>>::empty(),
            },
    {
        if self.is_empty() {
            return None;
        }
        proof {
            if self.entries@.len() == 0 {
                assert(self@.dom() =~= Set::<Seq<char>>::empty()) by {
                    assert forall|name: Seq<char>| !self@.dom().contains(name) by {
                        assert(!self.holds(name));
                    }
                }
            }
            self.lemma_at(0);
        }
        let mut least: u64 = self.entries[0].1.last_sequence;
        let mut i: usize = 1;
        while i < self.entries.len()
            invariant
                self.wf(),
                1 <= i <= self.entries@.len(),
                exists|c: Seq<char>| #[trigger]
                    self@.dom().contains(c) && self@[c].last_sequence == least,
                forall|j: int| 0 <= j < i ==> least <= (#[trigger] self.entries@[j]).1.last_sequence,
            decreases self.entries@.len() - i,
        {
            if self.entries[i].1.last_sequence < least {
                least = self.entries[i].1.last_sequence;
                proof {
                    self.lemma_at(i as int);
                }
            }
            i = i + 1;
        }
        proof {
            assert forall|c: Seq<char>| #[trigger] self@.dom().contains(c) implies least
                <= self@[c].last_sequence by {
                let j = self.index_of(c);
                assert(self.entries@[j].0@ == c);
                self.lemma_at(j);
            }
        }
        Some(least)
    }

    /// A second list with the same progress.
    pub fn duplicate(&self) -> (r: Self)
        requires
            self.wf(),
        ensures
            r.wf(),
            r@ == self@,
    {
        let mut entries: Vec<(String, ConsumerRow)> = Vec::new();
        let mut i: usize = 0;
        while i < self.entries.len()
            invariant
                self.wf(),
                i <= self.entries@.len(),
                entries@ == self.entries@.take(i as int),
            decreases self.entries@.len() - i,
        {
            entries.push((self.entries[i].0.clone(), self.entries[i].1));
            i = i + 1;
            assert(entries@ =~= self.entries@.take(i as int));
        }
        let r = Consumers { entries };
        proof {
            assert(r.entries@ =~= self.entries@);
            assert forall|n: Seq<char>| r.holds(n) == self.holds(n) by {
            }
            assert forall|n: Seq<char>| r.holds(n) implies r@[n] == self@[n] by {
                let i = r.index_of(n);
                r.lemma_at(i);
                self.lemma_at(i);
            }
            assert(r@ =~= self@);
        }
        r
    }
}

/// The consumers that entries make: a later one replaces an earlier one of the same name.
pub open spec fn consumers_of(entries: Seq<(String, ConsumerRow)>) -> Map<Seq<char>, ConsumerRow>
    decreases entries.len(),
{
    if entries.len() == 0 {
        Map::empty()
    } else {
        consumers_of(entries.drop_last()).insert(entries.last().0@, entries.last().1)
    }
}

impl Consumers {
    /// The consumers that entries make.
    pub fn from_entries(entries: &Vec<(String, ConsumerRow)>) -> (r: Self)
        ensures
            r.wf(),
            r@ == consumers_of(entries@),
    {
        let mut r = Consumers::new();
        let mut i: usize = 0;
        assert(entries@.take(0) =~= Seq::<(String, ConsumerRow)>::empty());
        while i < entries.len()
            invariant
                i <= entries@.len(),
                r.wf(),
                r@ == consumers_of(entries@.take(i as int)),
            decreases entries@.len() - i,
        {
            r.put(entries[i].0.as_str(), entries[i].1);
            i = i + 1;
            proof {
                let next = entries@.take(i as int);
                assert(next.drop_last() =~= entries@.take(i - 1));
                assert(next.last() == entries@[i - 1]);
            }
        }
        assert(entries@.take(i as int) =~= entries@);
        r
    }

    /// The consumers by name.
    pub fn to_entries(&self) -> (r: Vec<(String, ConsumerRow)>)
        requires
            self.wf(),
        ensures
            consumers_of(r@) == self@,
    {
        let mut r: Vec<(String, ConsumerRow)> = Vec::new();
        let mut i: usize = 0;
        while i < self.entries.len()
            invariant
                self.wf(),
                i <= self.entries@.len(),
                forall|k: Seq<char>| #[trigger]
                    consumers_of(r@).dom().contains(k) <==> exists|j: int|
                        0 <= j < i && (#[trigger] self.entries@[j]).0@ == k,
                forall|k: Seq<char>| #[trigger]
                    consumers_of(r@).dom().contains(k) ==> self@.dom().contains(k) && consumers_of(
                        r@,
                    )[k] == self@[k],
            decreases self.entries@.len() - i,
        {
            let ghost before = r@;
            let name = self.entries[i].0.clone();
            r.push((name, self.entries[i].1));
            proof {
                self.lemma_at(i as int);
                let key = self.entries@[i as int].0@;
                assert(r@.drop_last() =~= before);
                assert(consumers_of(r@) == consumers_of(before).insert(key, self@[key]));
                assert forall|k: Seq<char>| #[trigger]
                    consumers_of(r@).dom().contains(k) <==> exists|j: int|
                        0 <= j < i + 1 && (#[trigger] self.entries@[j]).0@ == k by {
                    if k == key {
                        assert(self.entries@[i as int].0@ == k);
                    } else {
                        assert(consumers_of(before).dom().contains(k) == consumers_of(
                            r@,
                        ).dom().contains(k));
                        if exists|j: int| 0 <= j < i + 1 && (#[trigger] self.entries@[j]).0@ == k {
                            let j = choose|j: int|
                                0 <= j < i + 1 && (#[trigger] self.entries@[j]).0@ == k;
                            assert(j < i);
                        }
                    }
                }
            }
            i = i + 1;
        }
        proof {
            assert forall|k: Seq<char>| #[trigger] self@.dom().contains(k) implies consumers_of(
                r@,
            ).dom().contains(k) by {
                let j = self.index_of(k);
                assert(self.entries@[j].0@ == k);
            }
            assert(consumers_of(r@) =~= self@);
        }
        r
    }

    /// Whether no consumer is ahead of a sequence, nor its generation too large.
    pub fn within(&self, issued: u64, maximum: u64) -> (r: bool)
        requires
            self.wf(),
        ensures
            r == forall|c: Seq<char>| #[trigger]
                self@.dom().contains(c) ==> self@[c].last_sequence <= issued
                    && self@[c].index_generation <= maximum,
    {
        let mut i: usize = 0;
        while i < self.entries.len()
            invariant
                self.wf(),
                i <= self.entries@.len(),
                forall|j: int|
                    0 <= j < i ==> (#[trigger] self.entries@[j]).1.last_sequence <= issued
                        && self.entries@[j].1.index_generation <= maximum,
            decreases self.entries@.len() - i,
        {
            let row = self.entries[i].1;
            if row.last_sequence > issued || row.index_generation > maximum {
                proof {
                    self.lemma_at(i as int);
                }
                return false;
            }
            i = i + 1;
        }
        proof {
            assert forall|c: Seq<char>| #[trigger] self@.dom().contains(c) implies self@[c].last_sequence
                <= issued && self@[c].index_generation <= maximum by {
                let j = self.index_of(c);
                assert(self.entries@[j].0@ == c);
                self.lemma_at(j);
            }
        }
        true
    }
}

} // verus!
