//! Scans: what is reported of a root and of each directory entry, and where the scan goes.

use vstd::prelude::*;

use crate::catalog::{
    event_models, Availability, DescriptorModel, EventModel, FileKind, FileLinkSnapshot,
    FileMetadata, FileObjectSnapshot, FilesystemEvent, LinkSnapshotModel, ProviderCheckpoint,
    VolumeDescriptor,
};
use crate::ids::{FileKey, FileLinkId, VolumeId};
use crate::platform::{reports, PlatformError, PlatformErrorKind, PlatformResult};
use crate::provider::{
    ChangeTrackingMode, InitialScanMode, PlatformCapabilities, PlatformFamily, PrivilegeModel,
    ScanSummary,
};
use crate::text::{
    chars_of, copy_optional, lowercase, lowercase_of, optional_text, same_text, texts,
};
use crate::windows::changes::ObjectLookup;
use crate::windows::checkpoint::{
    continues, fresh_cursor, is_history_gap, validate, WindowsCheckpoint,
};
use crate::windows::identity::{
    before_zero, big_endian, big_endian_bytes, checkpoint_identity, display_root_path, displayed,
    file_key, filetime_ms, hash, link_bytes, link_hash, object_of, root_fingerprint, root_link,
    root_link_id, scoped_bytes, scoped_root_fingerprint, scoped_volume_id, utf16_text, utf16_z,
    volume_id_from_guid, FILETIME_EPOCH,
};
use crate::windows::journal::{retained, retained_start, JournalState};
use vstd::utf8::encode_utf8;

verus! {

/// How the provider follows changes.
#[derive(Clone, Copy, Debug, PartialEq, Eq, Structural)]
pub enum TrackingMode {
    /// Not at all.
    Snapshot,
    /// By the change journal.
    UsnJournal,
}

/// What the provider can do.
pub fn windows_capabilities(tracking: TrackingMode) -> (r: PlatformCapabilities)
    ensures
        r.platform == PlatformFamily::Windows,
        r.initial_scan == InitialScanMode::FilesystemCrawl,
        r.change_tracking == (if tracking == TrackingMode::UsnJournal {
            ChangeTrackingMode::PersistentObjectJournal
        } else {
            ChangeTrackingMode::SnapshotOnly
        }),
        r.privilege_model == PrivilegeModel::OptionalBroker,
        r.stable_object_ids,
        r.hard_links,
        r.persistent_history == (tracking == TrackingMode::UsnJournal),
{
    let journal = tracking == TrackingMode::UsnJournal;
    PlatformCapabilities {
        platform: PlatformFamily::Windows,
        initial_scan: InitialScanMode::FilesystemCrawl,
        change_tracking: if journal {
            ChangeTrackingMode::PersistentObjectJournal
        } else {
            ChangeTrackingMode::SnapshotOnly
        },
        privilege_model: PrivilegeModel::OptionalBroker,
        stable_object_ids: true,
        hard_links: true,
        persistent_history: journal,
    }
}

/// Checks that the provider follows changes.
pub fn require_journal(tracking: TrackingMode) -> (r: PlatformResult<()>)
    ensures
        match r {
            Ok(()) => tracking == TrackingMode::UsnJournal,
            Err(error) => tracking != TrackingMode::UsnJournal && reports(
                error,
                PlatformErrorKind::Unsupported,
                "read_changes"@,
                "this provider instance is configured for snapshots only"@,
            ),
        },
{
    if tracking != TrackingMode::UsnJournal {
        return Err(
            PlatformError::new(
                PlatformErrorKind::Unsupported,
                "read_changes",
                "this provider instance is configured for snapshots only",
            ),
        );
    }
    Ok(())
}

/// A letter in lower case; any other character as it is.
pub open spec fn ascii_lowered(c: char) -> char {
    if 'A' <= c <= 'Z' {
        (c as u32 + 32) as char
    } else {
        c
    }
}

/// The text is the name of the filesystem, whatever the case of its letters.
pub open spec fn names_ntfs(text: Seq<char>) -> bool {
    &&& text.len() == 4
    &&& ascii_lowered(text[0]) == 'n'
    &&& ascii_lowered(text[1]) == 't'
    &&& ascii_lowered(text[2]) == 'f'
    &&& ascii_lowered(text[3]) == 's'
}

/// The volume has the filesystem that can be scanned.
pub open spec fn is_ntfs(filesystem: Option<Seq<char>>) -> bool {
    match filesystem {
        Some(name) => names_ntfs(name),
        None => false,
    }
}

/// Checks that a volume has the filesystem that can be scanned.
pub fn require_ntfs(volume: &VolumeDescriptor) -> (r: PlatformResult<()>)
    ensures
        match r {
            Ok(()) => is_ntfs(volume@.filesystem),
            Err(error) => !is_ntfs(volume@.filesystem) && reports(
                error,
                PlatformErrorKind::Unsupported,
                "initial_scan"@,
                "START-004 native path supports NTFS only"@,
            ),
        },
{
    let found = match &volume.filesystem {
        Some(name) => {
            let chars = chars_of(name.as_str());
            chars.len() == 4 && (chars[0] == 'n' || chars[0] == 'N') && (chars[1] == 't'
                || chars[1] == 'T') && (chars[2] == 'f' || chars[2] == 'F') && (chars[3] == 's'
                || chars[3] == 'S')
        },
        None => false,
    };
    if found {
        Ok(())
    } else {
        Err(
            PlatformError::new(
                PlatformErrorKind::Unsupported,
                "initial_scan",
                "START-004 native path supports NTFS only",
            ),
        )
    }
}

/// Where a scan does not go.
#[derive(Clone, Debug, PartialEq, Eq)]
pub struct ScopedScanOptions {
    excluded_directory_names: Vec<String>,
}

impl View for ScopedScanOptions {
    type V = Seq<Seq<char>>;

    closed spec fn view(&self) -> Seq<Seq<char>> {
        texts(self.excluded_directory_names@)
    }
}

/// Directories of this name are not entered.
pub open spec fn excludes(excluded: Seq<Seq<char>>, name: Seq<char>) -> bool {
    excluded.contains(lowercase_of(name))
}

impl Default for ScopedScanOptions {
    fn default() -> (r: Self)
        ensures
            r@ == Seq::<Seq<char>>::empty(),
    {
        let r = ScopedScanOptions { excluded_directory_names: Vec::new() };
        assert(r@ =~= Seq::empty());
        r
    }
}

impl ScopedScanOptions {
    /// Directories of these names are not entered, whatever the case of their letters.
    pub fn excluding(names: Vec<String>) -> (r: Self)
        ensures
            r@ == Seq::new(names@.len(), |i: int| lowercase_of(names@[i]@)),
    {
        let mut lowered: Vec<String> = Vec::new();
        let mut i: usize = 0;
        while i < names.len()
            invariant
                i <= names@.len(),
                lowered@.len() == i,
                forall|k: int| 0 <= k < i ==> (#[trigger] lowered@[k])@ == lowercase_of(names@[k]@),
            decreases names@.len() - i,
        {
            lowered.push(lowercase(names[i].as_str()));
            i = i + 1;
        }
        assert(texts(lowered@) =~= Seq::new(names@.len(), |k: int| lowercase_of(names@[k]@)));
        ScopedScanOptions { excluded_directory_names: lowered }
    }

    /// Whether a directory whose name is in lower case already is entered.
    pub fn descends_into_lowered(&self, lowered: &str) -> (r: bool)
        ensures
            r == !self@.contains(lowered@),
    {
        let names = &self.excluded_directory_names;
        let mut i: usize = 0;
        while i < names.len()
            invariant
                i <= names@.len(),
                names == self.excluded_directory_names,
                forall|k: int| 0 <= k < i ==> #[trigger] texts(names@)[k] != lowered@,
            decreases names@.len() - i,
        {
            if same_text(names[i].as_str(), lowered) {
                assert(texts(names@)[i as int] == lowered@);
                return false;
            }
            i = i + 1;
        }
        true
    }

    /// Whether a directory of this name is entered.
    pub fn descends_into(&self, name: &str) -> (r: bool)
        ensures
            r == !excludes(self@, name@),
    {
        self.descends_into_lowered(lowercase(name).as_str())
    }
}

/// What Windows says of a file.
#[derive(Clone, Copy, Debug, PartialEq, Eq, Structural)]
pub struct NativeMetadata {
    /// Whether it is a directory.
    pub is_directory: bool,
    /// Whether it is a symbolic link.
    pub is_symlink: bool,
    /// Whether it is a plain file.
    pub is_file: bool,
    /// Its size.
    pub size: u64,
    /// When it was created.
    pub creation_time: u64,
    /// When it was written last.
    pub last_write_time: u64,
    /// Its attributes.
    pub attributes: u32,
}

/// The attribute of hidden files.
pub const ATTRIBUTE_HIDDEN: u32 = 0x2;

/// The attribute of directories that stand for something elsewhere.
pub const ATTRIBUTE_REPARSE_POINT: u32 = 0x400;

/// The kind of a file.
pub open spec fn kind_of(native: NativeMetadata) -> FileKind {
    if native.is_directory {
        FileKind::Directory
    } else if native.is_symlink {
        FileKind::Symlink
    } else if native.is_file {
        FileKind::File
    } else {
        FileKind::Other
    }
}

/// The time of a file; nothing before 1970.
pub open spec fn time_of(value: u64) -> Option<i64> {
    if value < FILETIME_EPOCH {
        None
    } else {
        Some(((value - FILETIME_EPOCH) / 10_000) as i64)
    }
}

/// The metadata of a file.
pub open spec fn metadata_of(native: NativeMetadata) -> FileMetadata {
    FileMetadata {
        kind: kind_of(native),
        size: native.size,
        created_at_unix_ms: time_of(native.creation_time),
        modified_at_unix_ms: time_of(native.last_write_time),
        hidden: native.attributes & ATTRIBUTE_HIDDEN != 0,
        availability: Availability::Online,
    }
}

/// The state of an object.
pub fn object_snapshot(object_key: FileKey, native: NativeMetadata) -> (r: FileObjectSnapshot)
    ensures
        r == (FileObjectSnapshot { object_key, metadata: metadata_of(native) }),
{
    let kind = if native.is_directory {
        FileKind::Directory
    } else if native.is_symlink {
        FileKind::Symlink
    } else if native.is_file {
        FileKind::File
    } else {
        FileKind::Other
    };
    FileObjectSnapshot {
        object_key,
        metadata: FileMetadata {
            kind,
            size: native.size,
            created_at_unix_ms: filetime_ms(native.creation_time),
            modified_at_unix_ms: filetime_ms(native.last_write_time),
            hidden: native.attributes & ATTRIBUTE_HIDDEN != 0,
            availability: Availability::Online,
        },
    }
}

/// Why something could not be read.
#[derive(Clone, Copy, Debug, PartialEq, Eq, Structural)]
pub enum ReadFailure {
    /// It is not there.
    NotFound,
    /// It may not be read.
    PermissionDenied,
    /// Anything else.
    Other,
}

/// The category of a failure.
pub open spec fn failure_kind(failure: ReadFailure) -> PlatformErrorKind {
    match failure {
        ReadFailure::PermissionDenied => PlatformErrorKind::PermissionDenied,
        ReadFailure::NotFound => PlatformErrorKind::Unavailable,
        ReadFailure::Other => PlatformErrorKind::Io,
    }
}

/// The failure of an operation.
pub fn io_error(operation: &'static str, failure: ReadFailure, detail: &str) -> (r: PlatformError)
    ensures
        reports(r, failure_kind(failure), operation@, detail@),
{
    let kind = match failure {
        ReadFailure::PermissionDenied => PlatformErrorKind::PermissionDenied,
        ReadFailure::NotFound => PlatformErrorKind::Unavailable,
        ReadFailure::Other => PlatformErrorKind::Io,
    };
    PlatformError::new(kind, operation, detail)
}

/// What a look at the metadata of a changed file found.
pub fn lookup_failed(failure: ReadFailure, detail: &str) -> (r: PlatformResult<ObjectLookup>)
    ensures
        match r {
            Ok(lookup) => lookup == (match failure {
                ReadFailure::NotFound => ObjectLookup::Missing,
                _ => ObjectLookup::Unavailable,
            }) && failure != ReadFailure::Other,
            Err(error) => failure == ReadFailure::Other && reports(
                error,
                PlatformErrorKind::Io,
                "read_changed_metadata"@,
                detail@,
            ),
        },
{
    match failure {
        ReadFailure::NotFound => Ok(ObjectLookup::Missing),
        ReadFailure::PermissionDenied => Ok(ObjectLookup::Unavailable),
        ReadFailure::Other => Err(io_error("read_changed_metadata", failure, detail)),
    }
}

/// A directory entry, as far as it could be read.
#[derive(Clone, Debug, PartialEq, Eq)]
pub enum EntryRead {
    /// All of it.
    Read {
        /// Its name.
        name: String,
        /// Its file reference.
        reference: u64,
        /// Its metadata.
        metadata: NativeMetadata,
    },
    /// The entry itself could not be read.
    EntryFailed {
        /// Why.
        failure: ReadFailure,
        /// Details.
        detail: String,
    },
    /// Its metadata could not be read.
    MetadataFailed {
        /// Why.
        failure: ReadFailure,
        /// Details.
        detail: String,
    },
    /// Its file reference could not be read.
    IdentityFailed {
        /// The failure.
        error: PlatformError,
    },
}

/// A directory entry as a mathematical value.
pub enum EntryModel {
    Read { name: Seq<char>, reference: u64, metadata: NativeMetadata },
    EntryFailed { failure: ReadFailure, detail: Seq<char> },
    MetadataFailed { failure: ReadFailure, detail: Seq<char> },
    IdentityFailed { error: PlatformError },
}

impl View for EntryRead {
    type V = EntryModel;

    open spec fn view(&self) -> EntryModel {
        match self {
            EntryRead::Read { name, reference, metadata } => EntryModel::Read {
                name: name@,
                reference: *reference,
                metadata: *metadata,
            },
            EntryRead::EntryFailed { failure, detail } => EntryModel::EntryFailed {
                failure: *failure,
                detail: detail@,
            },
            EntryRead::MetadataFailed { failure, detail } => EntryModel::MetadataFailed {
                failure: *failure,
                detail: detail@,
            },
            EntryRead::IdentityFailed { error } => EntryModel::IdentityFailed { error: *error },
        }
    }
}

/// What becomes of a directory entry.
#[derive(Clone, Debug, PartialEq, Eq)]
pub enum EntryStep {
    /// It is passed over.
    Skipped,
    /// It is reported.
    Observed {
        /// The object.
        object: FileObjectSnapshot,
        /// The link.
        link: FileLinkSnapshot,
        /// Whether the scan goes into it.
        descend: bool,
    },
}

/// What becomes of a directory entry, as a mathematical value.
pub enum EntryOutcome {
    Skipped,
    Observed { object: FileObjectSnapshot, link: LinkSnapshotModel, descend: bool },
    Failed { kind: PlatformErrorKind, operation: Seq<char>, detail: Seq<char> },
}

/// The scan goes into a directory unless it stands for something elsewhere or is excluded.
pub open spec fn descends(excluded: Seq<Seq<char>>, name: Seq<char>, native: NativeMetadata) ->
    bool {
    kind_of(native) == FileKind::Directory && native.attributes & ATTRIBUTE_REPARSE_POINT == 0
        && !excludes(excluded, name)
}

/// What becomes of an entry of a directory: one that is gone or may not be read is passed over,
/// any other failure ends the scan, and everything else is reported.
pub open spec fn entry_outcome(
    volume_id: VolumeId,
    parent: Option<FileKey>,
    excluded: Seq<Seq<char>>,
    entry: EntryModel,
) -> EntryOutcome {
    match entry {
        EntryModel::Read { name, reference, metadata } => {
            let object_key = object_of(volume_id, reference);
            EntryOutcome::Observed {
                object: FileObjectSnapshot { object_key, metadata: metadata_of(metadata) },
                link: LinkSnapshotModel {
                    file_link_id: FileLinkId { value: hash(link_bytes(parent, name)) },
                    object_key,
                    parent_key: parent,
                    name,
                },
                descend: descends(excluded, name, metadata),
            }
        },
        EntryModel::EntryFailed { failure, detail } => if failure != ReadFailure::Other {
            EntryOutcome::Skipped
        } else {
            EntryOutcome::Failed {
                kind: PlatformErrorKind::Io,
                operation: "read_directory_entry"@,
                detail,
            }
        },
        EntryModel::MetadataFailed { failure, detail } => if failure != ReadFailure::Other {
            EntryOutcome::Skipped
        } else {
            EntryOutcome::Failed {
                kind: PlatformErrorKind::Io,
                operation: "read_metadata"@,
                detail,
            }
        },
        EntryModel::IdentityFailed { error } => if error.kind
            == PlatformErrorKind::PermissionDenied || error.kind == PlatformErrorKind::Unavailable {
            EntryOutcome::Skipped
        } else {
            EntryOutcome::Failed {
                kind: error.kind,
                operation: error.operation@,
                detail: error.detail@,
            }
        },
    }
}

/// The outcome of an entry is this.
pub open spec fn is_entry_outcome(r: PlatformResult<EntryStep>, outcome: EntryOutcome) -> bool {
    match (r, outcome) {
        (Ok(EntryStep::Skipped), EntryOutcome::Skipped) => true,
        (
            Ok(EntryStep::Observed { object: x, link: y, descend: z }),
            EntryOutcome::Observed { object, link, descend },
        ) => x == object && y@ == link && z == descend,
        (Err(error), EntryOutcome::Failed { kind, operation, detail }) => reports(
            error,
            kind,
            operation,
            detail,
        ),
        _ => false,
    }
}

/// Says what becomes of an entry of a directory.
pub fn observe_entry(
    volume_id: VolumeId,
    parent: Option<FileKey>,
    options: &ScopedScanOptions,
    entry: EntryRead,
) -> (r: PlatformResult<EntryStep>)
    ensures
        is_entry_outcome(r, entry_outcome(volume_id, parent, options@, entry@)),
{
    match entry {
        EntryRead::Read { name, reference, metadata } => {
            let object_key = file_key(volume_id, reference);
            let object = object_snapshot(object_key, metadata);
            let enters = options.descends_into(name.as_str());
            let link = FileLinkSnapshot {
                file_link_id: FileLinkId::from_u128(link_hash(parent, name.as_str())),
                object_key,
                parent_key: parent,
                name,
            };
            let descend = object.metadata.kind == FileKind::Directory && metadata.attributes
                & ATTRIBUTE_REPARSE_POINT == 0 && enters;
            Ok(EntryStep::Observed { object, link, descend })
        },
        EntryRead::EntryFailed { failure, detail } => {
            if failure != ReadFailure::Other {
                Ok(EntryStep::Skipped)
            } else {
                Err(io_error("read_directory_entry", failure, detail.as_str()))
            }
        },
        EntryRead::MetadataFailed { failure, detail } => {
            if failure != ReadFailure::Other {
                Ok(EntryStep::Skipped)
            } else {
                Err(io_error("read_metadata", failure, detail.as_str()))
            }
        },
        EntryRead::IdentityFailed { error } => {
            if error.kind == PlatformErrorKind::PermissionDenied || error.kind
                == PlatformErrorKind::Unavailable {
                Ok(EntryStep::Skipped)
            } else {
                Err(error)
            }
        },
    }
}

/// What becomes of a directory that could not be opened: below the root it is passed over if it
/// is gone or may not be read; any other failure ends the scan.
pub fn directory_failed(failure: ReadFailure, descendant: bool, detail: &str) -> (r:
    PlatformResult<()>)
    ensures
        match r {
            Ok(()) => descendant && failure != ReadFailure::Other,
            Err(error) => !(descendant && failure != ReadFailure::Other) && reports(
                error,
                failure_kind(failure),
                "read_directory"@,
                detail@,
            ),
        },
{
    if descendant && failure != ReadFailure::Other {
        Ok(())
    } else {
        Err(io_error("read_directory", failure, detail))
    }
}

/// A directory of a scan in progress.
struct OpenDirectory {
    key: Option<FileKey>,
    entries: Vec<EntryRead>,
}

/// A directory of a scan in progress as a mathematical value: the entries that are left.
pub struct DirectoryModel {
    pub key: Option<FileKey>,
    pub entries: Seq<EntryModel>,
}

/// The views of several entries.
pub open spec fn entry_reads(entries: Seq<EntryRead>) -> Seq<EntryModel> {
    Seq::new(entries.len(), |i: int| entries[i]@)
}

/// A scan in progress.
pub struct Crawl {
    volume_id: VolumeId,
    options: ScopedScanOptions,
    open: Vec<OpenDirectory>,
    emitted: u64,
}

/// A scan in progress as a mathematical value. The directory that is read is the last one.
pub struct CrawlModel {
    pub volume_id: VolumeId,
    pub excluded: Seq<Seq<char>>,
    pub open: Seq<DirectoryModel>,
    pub emitted: nat,
}

/// What a scan does next.
#[derive(Clone, Debug, PartialEq, Eq)]
pub enum CrawlStep {
    /// Nothing: an entry was passed over or a directory was read to its end.
    Continue,
    /// It reports these changes, and then goes into the directory if one is given.
    Report {
        /// The object and the link.
        events: Vec<FilesystemEvent>,
        /// The directory.
        enter: Option<FileKey>,
    },
    /// It is complete.
    Complete,
}

/// What a scan does next, as a mathematical value.
pub enum CrawlAction {
    Continue,
    Report { events: Seq<EventModel>, enter: Option<FileKey> },
    Complete,
}

impl View for CrawlStep {
    type V = CrawlAction;

    open spec fn view(&self) -> CrawlAction {
        match self {
            CrawlStep::Continue => CrawlAction::Continue,
            CrawlStep::Report { events, enter } => CrawlAction::Report {
                events: event_models(events@),
                enter: *enter,
            },
            CrawlStep::Complete => CrawlAction::Complete,
        }
    }
}

/// The scan without the first entry of the directory that is read.
pub open spec fn past_entry(m: CrawlModel) -> CrawlModel {
    let top = m.open.last();
    CrawlModel {
        open: m.open.update(
            m.open.len() - 1,
            DirectoryModel { entries: top.entries.drop_first(), ..top },
        ),
        ..m
    }
}

/// The scan and what it does next: the next entry of the directory that is read, or back to the
/// directory above once it was read to its end.
pub open spec fn crawl_step(m: CrawlModel) -> Result<
    (CrawlModel, CrawlAction),
    (PlatformErrorKind, Seq<char>, Seq<char>),
> {
    if m.open.len() == 0 {
        Ok((m, CrawlAction::Complete))
    } else if m.open.last().entries.len() == 0 {
        Ok((CrawlModel { open: m.open.drop_last(), ..m }, CrawlAction::Continue))
    } else {
        let top = m.open.last();
        match entry_outcome(m.volume_id, top.key, m.excluded, top.entries[0]) {
            EntryOutcome::Skipped => Ok((past_entry(m), CrawlAction::Continue)),
            EntryOutcome::Observed { object, link, descend } => if m.emitted + 2 > u64::MAX {
                Err((PlatformErrorKind::Internal, "windows_provider"@, "event count overflow"@))
            } else {
                Ok(
                    (
                        CrawlModel { emitted: m.emitted + 2, ..past_entry(m) },
                        CrawlAction::Report {
                            events: seq![
                                EventModel::ObjectObserved { object },
                                EventModel::LinkObserved { link },
                            ],
                            enter: if descend {
                                Some(object.object_key)
                            } else {
                                None
                            },
                        },
                    ),
                )
            },
            EntryOutcome::Failed { kind, operation, detail } => Err((kind, operation, detail)),
        }
    }
}

impl View for OpenDirectory {
    type V = DirectoryModel;

    closed spec fn view(&self) -> DirectoryModel {
        DirectoryModel { key: self.key, entries: entry_reads(self.entries@).reverse() }
    }
}

impl Crawl {
    /// The scan as a mathematical value.
    pub closed spec fn view(&self) -> CrawlModel {
        CrawlModel {
            volume_id: self.volume_id,
            excluded: self.options@,
            open: Seq::new(self.open@.len(), |i: int| self.open@[i]@),
            emitted: self.emitted as nat,
        }
    }

    /// A scan that has reported the root and has not read it.
    pub fn begin(volume_id: VolumeId, options: ScopedScanOptions) -> (r: Crawl)
        ensures
            r@ == (CrawlModel {
                volume_id,
                excluded: options@,
                open: Seq::empty(),
                emitted: 2,
            }),
    {
        let r = Crawl { volume_id, options, open: Vec::new(), emitted: 2 };
        assert(r@.open =~= Seq::empty());
        r
    }

    /// Goes into a directory whose entries were read.
    pub fn enter(&mut self, key: FileKey, entries: Vec<EntryRead>)
        ensures
            final(self)@ == (CrawlModel {
                open: old(self)@.open.push(
                    DirectoryModel { key: Some(key), entries: entry_reads(entries@) },
                ),
                ..old(self)@
            }),
    {
        let ghost all = entry_reads(entries@);
        let mut reversed: Vec<EntryRead> = Vec::new();
        let mut entries = entries;
        let ghost n = entries@.len();
        while entries.len() > 0
            invariant
                n == all.len(),
                entries@.len() + reversed@.len() == n,
                forall|i: int| 0 <= i < entries@.len() ==> (#[trigger] entries@[i])@ == all[i],
                forall|i: int|
                    0 <= i < reversed@.len() ==> (#[trigger] reversed@[i])@ == all[n - 1 - i],
            decreases entries@.len(),
        {
            match entries.pop() {
                Some(entry) => reversed.push(entry),
                None => {},
            }
        }
        let directory = OpenDirectory { key: Some(key), entries: reversed };
        assert(entry_reads(reversed@).reverse() =~= all);
        let ghost before = self@.open;
        let ghost model = directory@;
        self.open.push(directory);
        assert(self@.open =~= before.push(model));
    }

    /// Takes the next entry.
    pub fn next(&mut self) -> (r: PlatformResult<CrawlStep>)
        ensures
            match r {
                Ok(action) => crawl_step(old(self)@) == Ok::<
                    (CrawlModel, CrawlAction),
                    (PlatformErrorKind, Seq<char>, Seq<char>),
                >((final(self)@, action@)),
                Err(error) => crawl_step(old(self)@) matches Err((kind, operation, detail))
                    && reports(error, kind, operation, detail),
            },
    {
        let ghost m = self@;
        let mut directory = match self.open.pop() {
            Some(directory) => directory,
            None => {
                assert(self@.open =~= m.open);
                return Ok(CrawlStep::Complete);
            },
        };
        assert(m.open.last() == directory@);
        let ghost entries = directory@.entries;
        let entry = match directory.entries.pop() {
            Some(entry) => entry,
            None => {
                assert(self@.open =~= m.open.drop_last());
                return Ok(CrawlStep::Continue);
            },
        };
        proof {
            assert(entries[0] == entry@);
            assert(directory@.entries =~= entries.drop_first());
        }
        let parent = directory.key;
        let outcome = observe_entry(self.volume_id, parent, &self.options, entry);
        self.open.push(directory);
        assert(self@.open =~= past_entry(m).open);
        match outcome {
            Ok(EntryStep::Skipped) => Ok(CrawlStep::Continue),
            Ok(EntryStep::Observed { object, link, descend }) => {
                if self.emitted > u64::MAX - 2 {
                    return Err(
                        PlatformError::new(
                            PlatformErrorKind::Internal,
                            "windows_provider",
                            "event count overflow",
                        ),
                    );
                }
                self.emitted = self.emitted + 2;
                let ghost link_model = link@;
                let enter = if descend {
                    Some(object.object_key)
                } else {
                    None
                };
                let events = vec![
                    FilesystemEvent::ObjectObserved { object },
                    FilesystemEvent::LinkObserved { link },
                ];
                assert(event_models(events@) =~= seq![
                    EventModel::ObjectObserved { object },
                    EventModel::LinkObserved { link: link_model },
                ]);
                Ok(CrawlStep::Report { events, enter })
            },
            Err(error) => Err(error),
        }
    }

    /// How many changes were reported.
    pub fn emitted_events(&self) -> (r: u64)
        ensures
            r == self@.emitted,
    {
        self.emitted
    }
}

/// A scan never goes into a directory that is excluded or that stands for something elsewhere,
/// and what it reports of an entry lies in the directory that is read.
pub proof fn scan_stays_in_bounds(m: CrawlModel)
    requires
        m.open.len() > 0,
        m.open.last().entries.len() > 0,
    ensures
        crawl_step(m) matches Ok((next, CrawlAction::Report { events, enter })) ==> {
            let entry = m.open.last().entries[0];
            &&& entry is Read
            &&& enter is Some ==> kind_of(entry->Read_metadata) == FileKind::Directory && !excludes(
                m.excluded,
                entry->name,
            ) && entry->Read_metadata.attributes & ATTRIBUTE_REPARSE_POINT == 0
            &&& events.len() == 2
            &&& events[1] is LinkObserved
            &&& events[1]->link.parent_key == m.open.last().key
            &&& events[1]->link.name == entry->name
            &&& next.emitted == m.emitted + events.len()
        },
{
}

/// The object at a root.
pub fn root_object(lookup: ObjectLookup, operation: &'static str, detail: &'static str) -> (r:
    PlatformResult<FileObjectSnapshot>)
    ensures
        match r {
            Ok(object) => lookup == ObjectLookup::Observed(object),
            Err(error) => !(lookup is Observed) && reports(
                error,
                PlatformErrorKind::Unavailable,
                operation@,
                detail@,
            ),
        },
{
    match lookup {
        ObjectLookup::Observed(object) => Ok(object),
        _ => Err(PlatformError::new(PlatformErrorKind::Unavailable, operation, detail)),
    }
}

/// The changes that report a root.
pub fn root_events(volume_id: VolumeId, root: FileObjectSnapshot, name: String) -> (r: Vec<
    FilesystemEvent,
>)
    ensures
        event_models(r@) == seq![
            EventModel::ObjectObserved { object: root },
            EventModel::LinkObserved {
                link: LinkSnapshotModel {
                    file_link_id: root_link(volume_id),
                    object_key: root.object_key,
                    parent_key: None,
                    name: name@,
                },
            },
        ],
{
    let link = FileLinkSnapshot {
        file_link_id: root_link_id(volume_id),
        object_key: root.object_key,
        parent_key: None,
        name,
    };
    let ghost model = link@;
    let r = vec![
        FilesystemEvent::ObjectObserved { object: root },
        FilesystemEvent::LinkObserved { link },
    ];
    assert(event_models(r@) =~= seq![
        EventModel::ObjectObserved { object: root },
        EventModel::LinkObserved { link: model },
    ]);
    r
}

/// The checkpoint of a scan without a journal.
pub fn snapshot_checkpoint(volume_id: VolumeId) -> (r: WindowsCheckpoint)
    ensures
        r@ == fresh_cursor((volume_id.value % 0x1_0000_0000_0000_0000) as u64, 0, 0),
{
    WindowsCheckpoint::fresh(checkpoint_identity(volume_id), 0, 0)
}

/// The checkpoint of a scan with a journal: changes are read from where the journal stood before
/// the scan, if it still reaches back there after it.
pub fn journal_checkpoint(before: JournalState, after: JournalState) -> (r: PlatformResult<
    WindowsCheckpoint,
>)
    ensures
        ({
            let cursor = fresh_cursor(before.identity, before.next_position, retained(before));
            match r {
                Ok(saved) => continues(cursor, after.identity, retained(after)) && saved@ == cursor,
                Err(error) => !continues(cursor, after.identity, retained(after))
                    && is_history_gap(error),
            }
        }),
{
    let saved = WindowsCheckpoint::fresh(
        before.identity,
        before.next_position,
        retained_start(before),
    );
    match validate(&saved, after.identity, retained_start(after)) {
        Ok(()) => Ok(saved),
        Err(error) => Err(error),
    }
}

/// The mount with the longest path among those above a root, the last of several.
pub open spec fn is_deepest_mount(lengths: Seq<Option<usize>>, r: Option<usize>) -> bool {
    match r {
        Some(i) => {
            &&& i < lengths.len()
            &&& lengths[i as int] is Some
            &&& forall|k: int|
                0 <= k < lengths.len() && #[trigger] lengths[k] is Some ==> (lengths[k]->0
                    <= lengths[i as int]->0 && (k > i ==> lengths[k]->0 < lengths[i as int]->0))
        },
        None => forall|k: int| 0 <= k < lengths.len() ==> #[trigger] lengths[k] is None,
    }
}

/// Picks the volume of a root: of those whose mount lies above it, given the lengths of their
/// paths, the deepest.
pub fn deepest_mount(lengths: &Vec<Option<usize>>) -> (r: PlatformResult<usize>)
    ensures
        match r {
            Ok(i) => is_deepest_mount(lengths@, Some(i)),
            Err(error) => is_deepest_mount(lengths@, None) && reports(
                error,
                PlatformErrorKind::Unavailable,
                "scan_root"@,
                "selected root is outside a discovered local volume"@,
            ),
        },
{
    let mut best: Option<usize> = None;
    let mut i: usize = 0;
    while i < lengths.len()
        invariant
            i <= lengths@.len(),
            is_deepest_mount(lengths@.take(i as int), best),
        decreases lengths@.len() - i,
    {
        let ghost seen = lengths@.take(i as int);
        let ghost next = lengths@.take(i + 1);
        proof {
            assert(forall|k: int| 0 <= k < i ==> seen[k] == #[trigger] next[k]);
            if best is Some {
                assert(next[best->0 as int] == seen[best->0 as int]);
            }
        }
        if let Some(length) = lengths[i] {
            let better = match best {
                Some(b) => match lengths[b] {
                    Some(other) => length >= other,
                    None => true,
                },
                None => true,
            };
            if better {
                best = Some(i);
            }
        }
        proof {
            assert forall|k: int| 0 <= k < next.len() && best is None implies #[trigger] next[k]
                is None by {
                if k < i {
                    assert(seen[k] is None);
                }
            }
        }
        i = i + 1;
    }
    assert(lengths@.take(i as int) =~= lengths@);
    match best {
        Some(index) => Ok(index),
        None => Err(
            PlatformError::new(
                PlatformErrorKind::Unavailable,
                "scan_root",
                "selected root is outside a discovered local volume",
            ),
        ),
    }
}

/// A selected root, ready to be scanned.
#[derive(Clone, Debug, PartialEq, Eq)]
pub struct PreparedScopedScan {
    canonical: String,
    volume: VolumeDescriptor,
    root_key: FileKey,
}

/// The source that a selected root is: its identity depends on the volume and on the path.
pub open spec fn scoped_source(native: DescriptorModel, canonical: Seq<char>) -> DescriptorModel {
    DescriptorModel {
        volume_id: VolumeId {
            value: hash(
                scoped_bytes(native.volume_id, root_fingerprint(lowercase_of(canonical))),
            ),
        },
        display_name: Some(displayed(canonical)),
        mount_points: seq![displayed(canonical)],
        ..native
    }
}

impl PreparedScopedScan {
    /// The canonical path of the root.
    pub closed spec fn path(&self) -> Seq<char> {
        self.canonical@
    }

    /// The source that the root is.
    pub closed spec fn source(&self) -> DescriptorModel {
        self.volume@
    }

    /// The object at the root.
    pub closed spec fn object(&self) -> FileKey {
        self.root_key
    }

    /// Prepares a root of a volume with a file reference.
    pub fn prepare(native: &VolumeDescriptor, canonical: String, reference: u64) -> (r: Self)
        ensures
            r.path() == canonical@,
            r.source() == scoped_source(native@, canonical@),
            r.object() == object_of(r.source().volume_id, reference),
    {
        let volume_id = scoped_volume_id(native.volume_id, canonical.as_str());
        let shown = display_root_path(canonical.as_str());
        let mount_points = vec![shown.clone()];
        assert(texts(mount_points@) =~= seq![displayed(canonical@)]);
        let volume = VolumeDescriptor {
            volume_id,
            display_name: Some(shown),
            mount_points,
            filesystem: copy_optional(&native.filesystem),
            removable: native.removable,
            local: native.local,
        };
        PreparedScopedScan { canonical, volume, root_key: file_key(volume_id, reference) }
    }

    /// The source that the root is.
    pub fn volume(&self) -> (r: &VolumeDescriptor)
        ensures
            r@ == self.source(),
    {
        &self.volume
    }

    /// The canonical path of the root.
    pub fn canonical(&self) -> (r: &str)
        ensures
            r@ == self.path(),
    {
        self.canonical.as_str()
    }

    /// The object at the root.
    pub fn root_key(&self) -> (r: FileKey)
        ensures
            r == self.object(),
    {
        self.root_key
    }

    /// The changes that report the root.
    pub fn report_root(&self, lookup: ObjectLookup) -> (r: PlatformResult<Vec<FilesystemEvent>>)
        ensures
            match r {
                Ok(events) => lookup is Observed && event_models(events@) == seq![
                    EventModel::ObjectObserved { object: lookup->Observed_0 },
                    EventModel::LinkObserved {
                        link: LinkSnapshotModel {
                            file_link_id: root_link(self.source().volume_id),
                            object_key: lookup->Observed_0.object_key,
                            parent_key: None,
                            name: displayed(self.path()),
                        },
                    },
                ],
                Err(error) => !(lookup is Observed) && reports(
                    error,
                    PlatformErrorKind::Unavailable,
                    "scan_root"@,
                    "selected root metadata is unavailable"@,
                ),
            },
    {
        match root_object(lookup, "scan_root", "selected root metadata is unavailable") {
            Ok(object) => Ok(
                root_events(
                    self.volume.volume_id,
                    object,
                    display_root_path(self.canonical.as_str()),
                ),
            ),
            Err(error) => Err(error),
        }
    }

    /// The summary of a scan of the root.
    pub fn summarize(&self, emitted_events: u64) -> (r: ScopedScanSummary)
        ensures
            r.volume@ == self.source(),
            r.scan.emitted_events == emitted_events,
            r.scan.checkpoint.provider_id@ == "windows-scoped-folder"@,
            r.scan.checkpoint.format_version == 1,
            r.scan.checkpoint.volume_id == self.source().volume_id,
            r.scan.checkpoint.opaque@ == big_endian(
                root_fingerprint(lowercase_of(self.path())),
                16,
            ),
    {
        let fingerprint: u128 = scoped_root_fingerprint(self.canonical.as_str());
        ScopedScanSummary {
            volume: self.volume.duplicate(),
            scan: ScanSummary {
                checkpoint: ProviderCheckpoint {
                    provider_id: "windows-scoped-folder".to_owned(),
                    format_version: 1,
                    volume_id: self.volume.volume_id,
                    opaque: big_endian_bytes(fingerprint),
                },
                emitted_events,
            },
        }
    }
}

/// The result of the scan of a selected root.
#[derive(Clone, Debug, PartialEq, Eq)]
pub struct ScopedScanSummary {
    /// The source that the root is.
    pub volume: VolumeDescriptor,
    /// The checkpoint and the number of changes.
    pub scan: ScanSummary,
}

/// The letter of a drive.
pub open spec fn drive_letter(index: nat) -> char {
    ('A' as u32 + index) as char
}

/// The drive is there.
pub open spec fn has_drive(mask: u32, index: int) -> bool {
    mask & (1u32 << (index as u32)) != 0
}

/// The drives with an index below `n` that are there, in order.
pub open spec fn drives(mask: u32, n: nat) -> Seq<Seq<char>>
    decreases n,
{
    if n == 0 {
        Seq::empty()
    } else {
        let before = drives(mask, (n - 1) as nat);
        if has_drive(mask, n - 1) {
            before.push(seq![drive_letter((n - 1) as nat), ':', '\\'])
        } else {
            before
        }
    }
}

fn letter_of(index: u8) -> (c: char)
    requires
        index < 26,
    ensures
        c == drive_letter(index as nat),
{
    (0x41u8 + index) as char
}

/// The roots of the drives that are there.
pub fn drive_roots(mask: u32) -> (r: Vec<String>)
    ensures
        texts(r@) == drives(mask, 26),
{
    let mut r: Vec<String> = Vec::new();
    let mut index: u8 = 0;
    assert(texts(r@) =~= Seq::empty());
    while index < 26
        invariant
            index <= 26,
            texts(r@) == drives(mask, index as nat),
        decreases 26 - index,
    {
        let ghost before = texts(r@);
        if mask & (1u32 << (index as u32)) != 0 {
            let mut root = String::new();
            root.push(letter_of(index));
            root.push(':');
            root.push('\\');
            assert(root@ =~= seq![drive_letter(index as nat), ':', '\\']);
            let ghost model = root@;
            r.push(root);
            assert(texts(r@) =~= before.push(model));
        }
        index = index + 1;
    }
    r
}

/// The text, if there is any.
pub open spec fn nonempty(text: Seq<char>) -> Option<Seq<char>> {
    if text.len() == 0 {
        None
    } else {
        Some(text)
    }
}

fn if_nonempty(text: String) -> (r: Option<String>)
    ensures
        optional_text(r) == nonempty(text@),
{
    if text.as_str().is_empty() {
        None
    } else {
        Some(text)
    }
}

/// Describes the volume of a drive from what Windows writes into its buffers.
pub fn describe_volume(
    root: &str,
    label: &Vec<u16>,
    filesystem: &Vec<u16>,
    guid: &Vec<u16>,
) -> (r: VolumeDescriptor)
    ensures
        r@ == (DescriptorModel {
            volume_id: VolumeId { value: hash(encode_utf8(utf16_text(before_zero(guid@)))) },
            display_name: nonempty(utf16_text(before_zero(label@))),
            mount_points: seq![root@],
            filesystem: nonempty(utf16_text(before_zero(filesystem@))),
            removable: false,
            local: true,
        }),
{
    let mount_points = vec![root.to_owned()];
    assert(texts(mount_points@) =~= seq![root@]);
    VolumeDescriptor {
        volume_id: volume_id_from_guid(utf16_z(guid).as_str()),
        display_name: if_nonempty(utf16_z(label)),
        mount_points,
        filesystem: if_nonempty(utf16_z(filesystem)),
        removable: false,
        local: true,
    }
}

} // verus!
