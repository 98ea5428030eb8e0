//! Files, links, filesystem events and the catalog documents derived from them.

use vstd::prelude::*;

use crate::ids::{
    DocumentId, DocumentVersion, FileKey, FileLinkId, MutationSeq, VolumeId,
};
use crate::text::{
    copy_bytes, copy_optional, copy_texts, optional_text, same_optional, texts,
};

verus! {

/// What a filesystem object is.
#[derive(Clone, Copy, Debug, PartialEq, Eq, Structural)]
pub enum FileKind {
    /// A regular file.
    File,
    /// A directory.
    Directory,
    /// A symbolic link.
    Symlink,
    /// A device, socket or other special object.
    Special,
    /// Anything else.
    Other,
}

/// Whether the content of an object can be reached.
#[derive(Clone, Copy, Debug, PartialEq, Eq, Structural)]
pub enum Availability {
    /// Reachable.
    Online,
    /// On a volume that is disconnected.
    Offline,
    /// Not known.
    Unknown,
}

/// Why a volume must be scanned again.
#[derive(Clone, Copy, Debug, PartialEq, Eq, Structural)]
pub enum ReconciliationReason {
    /// The change history no longer reaches back far enough.
    SourceHistoryUnavailable,
    /// Events were lost.
    EventOverflow,
    /// A snapshot contradicted itself.
    InconsistentSnapshot,
    /// The provider asked for it.
    ProviderRequested,
}

/// Metadata of a filesystem object.
#[derive(Clone, Copy, Debug, PartialEq, Eq, Structural)]
pub struct FileMetadata {
    /// Kind of the object.
    pub kind: FileKind,
    /// Logical size in bytes.
    pub size: u64,
    /// Creation time.
    pub created_at_unix_ms: Option<i64>,
    /// Time of the last change.
    pub modified_at_unix_ms: Option<i64>,
    /// Whether the object is hidden.
    pub hidden: bool,
    /// Whether its content can be reached.
    pub availability: Availability,
}

/// The state of one object.
#[derive(Clone, Copy, Debug, PartialEq, Eq, Structural)]
pub struct FileObjectSnapshot {
    /// Identity of the object.
    pub object_key: FileKey,
    /// Its metadata.
    pub metadata: FileMetadata,
}

/// The state of one namespace link.
#[derive(Clone, Debug, PartialEq, Eq)]
pub struct FileLinkSnapshot {
    /// Identity of the link.
    pub file_link_id: FileLinkId,
    /// The object it names.
    pub object_key: FileKey,
    /// The directory that holds it; none for a root.
    pub parent_key: Option<FileKey>,
    /// Its name there.
    pub name: String,
}

/// A link as a mathematical value.
pub struct LinkSnapshotModel {
    pub file_link_id: FileLinkId,
    pub object_key: FileKey,
    pub parent_key: Option<FileKey>,
    pub name: Seq<char>,
}

impl View for FileLinkSnapshot {
    type V = LinkSnapshotModel;

    open spec fn view(&self) -> LinkSnapshotModel {
        LinkSnapshotModel {
            file_link_id: self.file_link_id,
            object_key: self.object_key,
            parent_key: self.parent_key,
            name: self.name@,
        }
    }
}

impl FileLinkSnapshot {
    /// A copy of the link.
    pub fn duplicate(&self) -> (r: Self)
        ensures
            r@ == self@,
    {
        FileLinkSnapshot {
            file_link_id: self.file_link_id,
            object_key: self.object_key,
            parent_key: self.parent_key,
            name: self.name.clone(),
        }
    }
}

/// A change that a filesystem provider reports.
#[derive(Clone, Debug, PartialEq, Eq)]
pub enum FilesystemEvent {
    /// An object was seen with this state.
    ObjectObserved {
        /// The state.
        object: FileObjectSnapshot,
    },
    /// A link was seen with this state.
    LinkObserved {
        /// The state.
        link: FileLinkSnapshot,
    },
    /// A link is gone.
    LinkRemoved {
        /// The link.
        file_link_id: FileLinkId,
        /// The object it named.
        object_key: FileKey,
    },
    /// An object is gone.
    ObjectRemoved {
        /// The object.
        object_key: FileKey,
    },
    /// The volume must be scanned again.
    ReconciliationRequired {
        /// The volume.
        volume_id: VolumeId,
        /// Why.
        reason: ReconciliationReason,
    },
}

/// A change as a mathematical value.
pub enum EventModel {
    ObjectObserved { object: FileObjectSnapshot },
    LinkObserved { link: LinkSnapshotModel },
    LinkRemoved { file_link_id: FileLinkId, object_key: FileKey },
    ObjectRemoved { object_key: FileKey },
    ReconciliationRequired { volume_id: VolumeId, reason: ReconciliationReason },
}

impl View for FilesystemEvent {
    type V = EventModel;

    open spec fn view(&self) -> EventModel {
        match self {
            FilesystemEvent::ObjectObserved { object } => EventModel::ObjectObserved {
                object: *object,
            },
            FilesystemEvent::LinkObserved { link } => EventModel::LinkObserved { link: link@ },
            FilesystemEvent::LinkRemoved { file_link_id, object_key } => EventModel::LinkRemoved {
                file_link_id: *file_link_id,
                object_key: *object_key,
            },
            FilesystemEvent::ObjectRemoved { object_key } => EventModel::ObjectRemoved {
                object_key: *object_key,
            },
            FilesystemEvent::ReconciliationRequired { volume_id, reason } => {
                EventModel::ReconciliationRequired { volume_id: *volume_id, reason: *reason }
            },
        }
    }
}

/// The views of several changes.
pub open spec fn event_models(events: Seq<FilesystemEvent>) -> Seq<EventModel> {
    Seq::new(events.len(), |i: int| events[i]@)
}

/// Whether two changes are the same.
pub fn same_event(a: &FilesystemEvent, b: &FilesystemEvent) -> (r: bool)
    ensures
        r == (a@ == b@),
{
    match (a, b) {
        (
            FilesystemEvent::ObjectObserved { object: x },
            FilesystemEvent::ObjectObserved { object: y },
        ) => *x == *y,
        (
            FilesystemEvent::LinkObserved { link: x },
            FilesystemEvent::LinkObserved { link: y },
        ) => x.file_link_id == y.file_link_id && x.object_key == y.object_key && x.parent_key
            == y.parent_key && x.name == y.name,
        (
            FilesystemEvent::LinkRemoved { file_link_id: x, object_key: p },
            FilesystemEvent::LinkRemoved { file_link_id: y, object_key: q },
        ) => *x == *y && *p == *q,
        (
            FilesystemEvent::ObjectRemoved { object_key: x },
            FilesystemEvent::ObjectRemoved { object_key: y },
        ) => *x == *y,
        (
            FilesystemEvent::ReconciliationRequired { volume_id: x, reason: p },
            FilesystemEvent::ReconciliationRequired { volume_id: y, reason: q },
        ) => *x == *y && *p == *q,
        _ => false,
    }
}

/// A volume as a provider describes it.
#[derive(Clone, Debug, PartialEq, Eq)]
pub struct VolumeDescriptor {
    /// Identity of the volume.
    pub volume_id: VolumeId,
    /// Label.
    pub display_name: Option<String>,
    /// Where it is mounted.
    pub mount_points: Vec<String>,
    /// Name of its filesystem.
    pub filesystem: Option<String>,
    /// Whether it can be removed.
    pub removable: bool,
    /// Whether it is a local disk.
    pub local: bool,
}

/// A volume description as a mathematical value.
pub struct DescriptorModel {
    pub volume_id: VolumeId,
    pub display_name: Option<Seq<char>>,
    pub mount_points: Seq<Seq<char>>,
    pub filesystem: Option<Seq<char>>,
    pub removable: bool,
    pub local: bool,
}

impl View for VolumeDescriptor {
    type V = DescriptorModel;

    open spec fn view(&self) -> DescriptorModel {
        DescriptorModel {
            volume_id: self.volume_id,
            display_name: optional_text(self.display_name),
            mount_points: texts(self.mount_points@),
            filesystem: optional_text(self.filesystem),
            removable: self.removable,
            local: self.local,
        }
    }
}

impl VolumeDescriptor {
    /// A copy of the description.
    pub fn duplicate(&self) -> (r: Self)
        ensures
            r@ == self@,
    {
        VolumeDescriptor {
            volume_id: self.volume_id,
            display_name: copy_optional(&self.display_name),
            mount_points: copy_texts(&self.mount_points),
            filesystem: copy_optional(&self.filesystem),
            removable: self.removable,
            local: self.local,
        }
    }
}

/// Where a provider continues reading changes. Its content is the provider's own.
#[derive(Clone, Debug, PartialEq, Eq)]
pub struct ProviderCheckpoint {
    /// The provider that wrote it.
    pub provider_id: String,
    /// Version of its content.
    pub format_version: u32,
    /// The volume it belongs to.
    pub volume_id: VolumeId,
    /// Content that only the provider reads.
    pub opaque: Vec<u8>,
}

/// A checkpoint as a mathematical value.
pub struct CheckpointModel {
    pub provider_id: Seq<char>,
    pub format_version: u32,
    pub volume_id: VolumeId,
    pub opaque: Seq<u8>,
}

impl View for ProviderCheckpoint {
    type V = CheckpointModel;

    open spec fn view(&self) -> CheckpointModel {
        CheckpointModel {
            provider_id: self.provider_id@,
            format_version: self.format_version,
            volume_id: self.volume_id,
            opaque: self.opaque@,
        }
    }
}

impl ProviderCheckpoint {
    /// A copy of the checkpoint.
    pub fn duplicate(&self) -> (r: Self)
        ensures
            r@ == self@,
    {
        ProviderCheckpoint {
            provider_id: self.provider_id.clone(),
            format_version: self.format_version,
            volume_id: self.volume_id,
            opaque: copy_bytes(&self.opaque),
        }
    }
}

/// The identities that a catalog document ties together.
#[derive(Clone, Copy, Debug, PartialEq, Eq, Structural)]
pub struct CatalogIdentity {
    /// The object.
    pub object_key: FileKey,
    /// The link that names it.
    pub file_link_id: FileLinkId,
    /// The document of that link.
    pub document_id: DocumentId,
}

impl CatalogIdentity {
    /// The identity made of the three.
    pub fn new(object_key: FileKey, file_link_id: FileLinkId, document_id: DocumentId) -> (r: Self)
        ensures
            r == (CatalogIdentity { object_key, file_link_id, document_id }),
    {
        CatalogIdentity { object_key, file_link_id, document_id }
    }
}

/// What a search index holds of one link.
#[derive(Clone, Debug, PartialEq, Eq)]
pub struct CatalogDocument {
    /// Identities.
    pub identity: CatalogIdentity,
    /// Version of the content.
    pub document_version: DocumentVersion,
    /// Name of the link.
    pub name: String,
    /// Display path from the root.
    pub resolved_path: String,
    /// Lower-case extension of the name.
    pub extension: Option<String>,
    /// Metadata of the object, with the availability of its volume.
    pub metadata: FileMetadata,
}

/// A document as a mathematical value.
pub struct DocumentModel {
    pub identity: CatalogIdentity,
    pub document_version: DocumentVersion,
    pub name: Seq<char>,
    pub resolved_path: Seq<char>,
    pub extension: Option<Seq<char>>,
    pub metadata: FileMetadata,
}

impl View for CatalogDocument {
    type V = DocumentModel;

    open spec fn view(&self) -> DocumentModel {
        DocumentModel {
            identity: self.identity,
            document_version: self.document_version,
            name: self.name@,
            resolved_path: self.resolved_path@,
            extension: optional_text(self.extension),
            metadata: self.metadata,
        }
    }
}

/// Two documents say the same of a link: they differ at most in their version.
pub open spec fn same_content(a: DocumentModel, b: DocumentModel) -> bool {
    &&& a.identity == b.identity
    &&& a.name == b.name
    &&& a.resolved_path == b.resolved_path
    &&& a.extension == b.extension
    &&& a.metadata == b.metadata
}

/// Whether two documents differ at most in their version.
pub fn catalog_content_equal(left: &CatalogDocument, right: &CatalogDocument) -> (r: bool)
    ensures
        r == same_content(left@, right@),
{
    left.identity == right.identity && left.name == right.name && left.resolved_path
        == right.resolved_path && same_optional(&left.extension, &right.extension) && left.metadata
        == right.metadata
}

impl CatalogDocument {
    /// A copy of the document.
    pub fn duplicate(&self) -> (r: Self)
        ensures
            r@ == self@,
    {
        CatalogDocument {
            identity: self.identity,
            document_version: self.document_version,
            name: self.name.clone(),
            resolved_path: self.resolved_path.clone(),
            extension: copy_optional(&self.extension),
            metadata: self.metadata,
        }
    }
}

/// A change to a search index.
#[derive(Clone, Debug, PartialEq, Eq)]
pub enum IndexMutation {
    /// Add or replace the document.
    Upsert {
        /// The document.
        document: CatalogDocument,
    },
    /// Remove the document.
    Delete {
        /// Its identity.
        document_id: DocumentId,
        /// Version at which it went.
        document_version: DocumentVersion,
    },
}

/// An index change as a mathematical value.
pub enum IndexMutationModel {
    Upsert { document: DocumentModel },
    Delete { document_id: DocumentId, document_version: DocumentVersion },
}

impl View for IndexMutation {
    type V = IndexMutationModel;

    open spec fn view(&self) -> IndexMutationModel {
        match self {
            IndexMutation::Upsert { document } => IndexMutationModel::Upsert {
                document: document@,
            },
            IndexMutation::Delete { document_id, document_version } => IndexMutationModel::Delete {
                document_id: *document_id,
                document_version: *document_version,
            },
        }
    }
}

impl IndexMutation {
    /// A copy of the change.
    pub fn duplicate(&self) -> (r: Self)
        ensures
            r@ == self@,
    {
        match self {
            IndexMutation::Upsert { document } => IndexMutation::Upsert {
                document: document.duplicate(),
            },
            IndexMutation::Delete { document_id, document_version } => IndexMutation::Delete {
                document_id: *document_id,
                document_version: *document_version,
            },
        }
    }
}

/// An index change with its place in the outbox.
#[derive(Clone, Debug, PartialEq, Eq)]
pub struct SequencedMutation {
    /// The place.
    pub sequence: MutationSeq,
    /// The change.
    pub mutation: IndexMutation,
}

/// Index changes that follow one another in the outbox.
#[derive(Clone, Debug, PartialEq, Eq)]
pub struct MutationBatch {
    /// The changes, in outbox order.
    pub mutations: Vec<SequencedMutation>,
}

/// The first place at which a batch does not continue.
#[derive(Clone, Copy, Debug, PartialEq, Eq, Structural)]
pub struct SequenceGap {
    /// Position in the batch.
    pub position: usize,
}

impl MutationBatch {
    /// Each change follows its predecessor without a gap.
    pub open spec fn is_consecutive(self) -> bool {
        forall|i: int|
            0 < i < self.mutations@.len() ==> (#[trigger] self.mutations@[i]).sequence.0
                == self.mutations@[0].sequence.0 + i
    }

    /// The place of the first change.
    pub fn first_sequence(&self) -> (r: Option<MutationSeq>)
        ensures
            r == if self.mutations@.len() == 0 {
                None
            } else {
                Some(self.mutations@[0].sequence)
            },
    {
        if self.mutations.len() == 0 {
            None
        } else {
            Some(self.mutations[0].sequence)
        }
    }

    /// Accepts a batch whose changes follow one another without a gap, and otherwise names the
    /// first change that does not continue.
    pub fn validate(&self) -> (r: Result<(), SequenceGap>)
        ensures
            match r {
                Ok(()) => self.is_consecutive(),
                Err(gap) => {
                    &&& 0 < gap.position < self.mutations@.len()
                    &&& self.mutations@[gap.position as int].sequence.0
                        != self.mutations@[0].sequence.0 + gap.position
                    &&& forall|i: int|
                        0 < i < gap.position ==> (#[trigger] self.mutations@[i]).sequence.0
                            == self.mutations@[0].sequence.0 + i
                },
            },
    {
        let mut i: usize = 1;
        while i < self.mutations.len()
            invariant
                1 <= i,
                i <= self.mutations@.len() || i == 1,
                forall|j: int|
                    0 < j < i && j < self.mutations@.len() ==> (
                    #[trigger] self.mutations@[j]).sequence.0 == self.mutations@[0].sequence.0 + j,
            decreases self.mutations@.len() - i,
        {
            let last: u64 = self.mutations[i - 1].sequence.0;
            if last == u64::MAX || self.mutations[i].sequence.0 != last + 1 {
                return Err(SequenceGap { position: i });
            }
            i = i + 1;
        }
        Ok(())
    }
}

/// Documents have the same content exactly when one is the other under another version.
pub proof fn same_content_is_equality_but_for_the_version(a: DocumentModel, b: DocumentModel)
    ensures
        same_content(a, b) <==> b == (DocumentModel {
            document_version: b.document_version,
            ..a
        }),
{
}

} // verus!
