//! Stable identities of volumes, files, links and documents.

use vstd::prelude::*;

use crate::table::TableKey;

verus! {

/// Identity of a volume.
#[derive(Clone, Copy, Debug, PartialEq, Eq, Hash, Structural)]
pub struct VolumeId {
    /// The identity as one integer.
    pub value: u128,
}

impl VolumeId {
    /// The identity with the given value.
    pub fn from_u128(value: u128) -> (id: Self)
        ensures
            id.value == value,
    {
        VolumeId { value }
    }
}

/// Identity of a file object within its volume.
#[derive(Clone, Copy, Debug, PartialEq, Eq, Hash, Structural)]
pub struct FileId128 {
    /// The identity as one integer.
    pub value: u128,
}

impl FileId128 {
    /// The identity with the given value.
    pub fn from_u128(value: u128) -> (id: Self)
        ensures
            id.value == value,
    {
        FileId128 { value }
    }
}

/// Identity of one namespace link.
#[derive(Clone, Copy, Debug, PartialEq, Eq, Hash, Structural)]
pub struct FileLinkId {
    /// The identity as one integer.
    pub value: u128,
}

impl FileLinkId {
    /// The identity with the given value.
    pub fn from_u128(value: u128) -> (id: Self)
        ensures
            id.value == value,
    {
        FileLinkId { value }
    }
}

/// Identity of one catalog document.
#[derive(Clone, Copy, Debug, PartialEq, Eq, Hash, Structural)]
pub struct DocumentId {
    /// The identity as one integer.
    pub value: u128,
}

impl DocumentId {
    /// The identity with the given value.
    pub fn from_u128(value: u128) -> (id: Self)
        ensures
            id.value == value,
    {
        DocumentId { value }
    }
}

/// Identity of a physical object: its volume and its file identity there.
#[derive(Clone, Copy, Debug, PartialEq, Eq, Hash, Structural)]
pub struct FileKey {
    /// Volume of the object.
    pub volume_id: VolumeId,
    /// Identity within the volume.
    pub file_id: FileId128,
}

impl FileKey {
    /// The object `file_id` of `volume_id`.
    pub fn new(volume_id: VolumeId, file_id: FileId128) -> (key: Self)
        ensures
            key.volume_id == volume_id,
            key.file_id == file_id,
    {
        FileKey { volume_id, file_id }
    }
}

/// Position in the projection outbox.
#[derive(Clone, Copy, Debug, PartialEq, Eq, Hash, Structural)]
pub struct MutationSeq(pub u64);

/// Version of a catalog document.
#[derive(Clone, Copy, Debug, PartialEq, Eq, Hash, Structural)]
pub struct DocumentVersion(pub u64);

/// Identity of a queued path refresh.
#[derive(Clone, Copy, Debug, PartialEq, Eq, Hash, Structural)]
pub struct JobId(pub i64);

impl TableKey for VolumeId {
    open spec fn rank(self) -> int {
        self.value as int
    }

    proof fn rank_is_injective(a: Self, b: Self) {
    }

    fn precedes(&self, other: &Self) -> (r: bool) {
        self.value < other.value
    }
}

impl TableKey for FileLinkId {
    open spec fn rank(self) -> int {
        self.value as int
    }

    proof fn rank_is_injective(a: Self, b: Self) {
    }

    fn precedes(&self, other: &Self) -> (r: bool) {
        self.value < other.value
    }
}

impl TableKey for DocumentId {
    open spec fn rank(self) -> int {
        self.value as int
    }

    proof fn rank_is_injective(a: Self, b: Self) {
    }

    fn precedes(&self, other: &Self) -> (r: bool) {
        self.value < other.value
    }
}

impl TableKey for MutationSeq {
    open spec fn rank(self) -> int {
        self.0 as int
    }

    proof fn rank_is_injective(a: Self, b: Self) {
    }

    fn precedes(&self, other: &Self) -> (r: bool) {
        self.0 < other.0
    }
}

impl TableKey for JobId {
    open spec fn rank(self) -> int {
        self.0 as int
    }

    proof fn rank_is_injective(a: Self, b: Self) {
    }

    fn precedes(&self, other: &Self) -> (r: bool) {
        self.0 < other.0
    }
}

impl TableKey for FileKey {
    open spec fn rank(self) -> int {
        self.volume_id.value * 0x1_0000_0000_0000_0000_0000_0000_0000_0000 + self.file_id.value
    }

    proof fn rank_is_injective(a: Self, b: Self) {
    }

    fn precedes(&self, other: &Self) -> (r: bool) {
        self.volume_id.value < other.volume_id.value || (self.volume_id.value
            == other.volume_id.value && self.file_id.value < other.file_id.value)
    }
}

} // verus!
