//! Journal records as changes, and how many of them are reported at a time.

use vstd::prelude::*;

use crate::catalog::{
    event_models, EventModel, FileLinkSnapshot, FileObjectSnapshot, FilesystemEvent,
    LinkSnapshotModel, ReconciliationReason,
};
use crate::ids::{FileLinkId, VolumeId};
use crate::platform::{reports, PlatformError, PlatformErrorKind, PlatformResult};
use crate::windows::checkpoint::{
    continues, forget_known_link, is_history_gap, known, known_link_id, remember_known_link,
    remember_rename, remembered_link_is_found, remembered_rename_is_found, renamed, take_rename,
    validate, with_known, with_rename, without_known, without_rename, JournalCursor, KnownLink,
    PendingRename, WindowsCheckpoint,
};
use crate::windows::identity::{file_key, hash, link_bytes, link_hash, object_of};
use crate::windows::journal::{retained, retained_start, JournalState};

verus! {

/// Why a record was written.
#[derive(Clone, Copy, Debug, PartialEq, Eq, Structural)]
pub struct ChangeReasons {
    /// The file lost this name.
    pub rename_old_name: bool,
    /// The file got this name.
    pub rename_new_name: bool,
    /// The file was deleted.
    pub file_delete: bool,
    /// A link was added or removed.
    pub hard_link_change: bool,
    /// The file was created.
    pub file_create: bool,
    /// Attributes or times changed.
    pub basic_info_change: bool,
    /// Content changed.
    pub data_change: bool,
}

/// A record of the journal.
#[derive(Clone, Debug, PartialEq, Eq)]
pub struct JournalRecord {
    /// Its position.
    pub position: i64,
    /// The file.
    pub file_reference: u64,
    /// Its directory.
    pub parent_reference: u64,
    /// Its name there.
    pub name: String,
    /// Why the record was written.
    pub reasons: ChangeReasons,
    /// Whether the name was not valid.
    pub had_invalid_utf16: bool,
}

/// What is found at the place that a record names.
#[derive(Clone, Copy, Debug, PartialEq, Eq, Structural)]
pub enum ObjectLookup {
    /// The object.
    Observed(FileObjectSnapshot),
    /// Nothing.
    Missing,
    /// It cannot be looked at.
    Unavailable,
}

/// A record that needs a look at its file.
#[derive(Clone, Debug, PartialEq, Eq)]
pub struct PendingChange {
    /// The link that the record names.
    pub link: FileLinkSnapshot,
    /// Why the record was written.
    pub reasons: ChangeReasons,
}

/// What becomes of a record.
#[derive(Clone, Debug, PartialEq, Eq)]
pub enum RecordStep {
    /// These changes.
    Ready(Vec<FilesystemEvent>),
    /// Its file must be looked at.
    NeedsLookup(PendingChange),
}

/// What becomes of a record, as a mathematical value.
pub enum StepModel {
    Ready(Seq<EventModel>),
    NeedsLookup(LinkSnapshotModel, ChangeReasons),
}

impl View for RecordStep {
    type V = StepModel;

    open spec fn view(&self) -> StepModel {
        match self {
            RecordStep::Ready(events) => StepModel::Ready(event_models(events@)),
            RecordStep::NeedsLookup(pending) => StepModel::NeedsLookup(
                pending.link@,
                pending.reasons,
            ),
        }
    }
}

/// The link at the place that a record names: the one known there, else the one hashed from the
/// place.
pub open spec fn place_link(cursor: JournalCursor, volume_id: VolumeId, record: JournalRecord) ->
    FileLinkId {
    match known(cursor.known_links, record.parent_reference, record.name@) {
        Some(id) => id,
        None => FileLinkId {
            value: hash(
                link_bytes(Some(object_of(volume_id, record.parent_reference)), record.name@),
            ),
        },
    }
}

/// The link that a record is about: a file that got a name keeps the link that it lost its name
/// with.
pub open spec fn record_link(cursor: JournalCursor, volume_id: VolumeId, record: JournalRecord) ->
    FileLinkId {
    if record.reasons.rename_new_name {
        match renamed(cursor.pending_renames, record.file_reference) {
            Some(id) => id,
            None => place_link(cursor, volume_id, record),
        }
    } else {
        place_link(cursor, volume_id, record)
    }
}

/// The checkpoint and the outcome of a record.
pub open spec fn step(cursor: JournalCursor, volume_id: VolumeId, record: JournalRecord) -> (
    JournalCursor,
    StepModel,
) {
    let object_key = object_of(volume_id, record.file_reference);
    if record.had_invalid_utf16 {
        (
            cursor,
            StepModel::Ready(
                seq![
                    EventModel::ReconciliationRequired {
                        volume_id,
                        reason: ReconciliationReason::ProviderRequested,
                    },
                ],
            ),
        )
    } else if record.reasons.rename_old_name {
        (
            JournalCursor {
                known_links: without_known(
                    cursor.known_links,
                    record.parent_reference,
                    record.name@,
                ),
                pending_renames: with_rename(
                    cursor.pending_renames,
                    PendingRename {
                        file_reference: record.file_reference,
                        file_link_id: place_link(cursor, volume_id, record),
                    },
                ),
                ..cursor
            },
            StepModel::Ready(Seq::empty()),
        )
    } else {
        let id = record_link(cursor, volume_id, record);
        let next = if record.reasons.rename_new_name {
            JournalCursor {
                pending_renames: without_rename(cursor.pending_renames, record.file_reference),
                known_links: with_known(
                    cursor.known_links,
                    KnownLink {
                        parent_reference: record.parent_reference,
                        name: record.name@,
                        file_link_id: id,
                    },
                ),
                ..cursor
            }
        } else {
            cursor
        };
        if record.reasons.file_delete {
            (
                JournalCursor {
                    known_links: without_known(
                        next.known_links,
                        record.parent_reference,
                        record.name@,
                    ),
                    ..next
                },
                StepModel::Ready(
                    seq![
                        EventModel::LinkRemoved { file_link_id: id, object_key },
                        EventModel::ObjectRemoved { object_key },
                    ],
                ),
            )
        } else {
            (
                next,
                StepModel::NeedsLookup(
                    LinkSnapshotModel {
                        file_link_id: id,
                        object_key,
                        parent_key: Some(object_of(volume_id, record.parent_reference)),
                        name: record.name@,
                    },
                    record.reasons,
                ),
            )
        }
    }
}

/// The changes of a record whose file was looked at.
pub open spec fn completed(link: LinkSnapshotModel, reasons: ChangeReasons, lookup: ObjectLookup) ->
    Seq<EventModel> {
    let names = reasons.file_create || reasons.rename_new_name;
    let describes = reasons.file_create || reasons.basic_info_change || reasons.data_change;
    match lookup {
        ObjectLookup::Unavailable => Seq::empty(),
        ObjectLookup::Observed(object) => if reasons.hard_link_change && !names {
            seq![EventModel::LinkObserved { link }]
        } else {
            (if describes {
                seq![EventModel::ObjectObserved { object }]
            } else {
                Seq::empty()
            }) + (if names {
                seq![EventModel::LinkObserved { link }]
            } else {
                Seq::empty()
            })
        },
        ObjectLookup::Missing => if reasons.hard_link_change && !names {
            seq![
                EventModel::LinkRemoved {
                    file_link_id: link.file_link_id,
                    object_key: link.object_key,
                },
            ]
        } else if names {
            seq![EventModel::LinkObserved { link }]
        } else {
            Seq::empty()
        },
    }
}

/// Takes a record: notes the renames in the checkpoint and says what becomes of the record.
pub fn canonical_step(
    saved: &mut WindowsCheckpoint,
    volume_id: VolumeId,
    record: &JournalRecord,
) -> (r: RecordStep)
    ensures
        (final(saved)@, r@) == step(old(saved)@, volume_id, *record),
{
    if record.had_invalid_utf16 {
        let events = vec![
            FilesystemEvent::ReconciliationRequired {
                volume_id,
                reason: ReconciliationReason::ProviderRequested,
            },
        ];
        assert(event_models(events@) =~= seq![
            EventModel::ReconciliationRequired {
                volume_id,
                reason: ReconciliationReason::ProviderRequested,
            },
        ]);
        return RecordStep::Ready(events);
    }
    let object_key = file_key(volume_id, record.file_reference);
    let parent_key = file_key(volume_id, record.parent_reference);
    let name = record.name.as_str();
    let place = match known_link_id(saved, record.parent_reference, name) {
        Some(id) => id,
        None => FileLinkId::from_u128(link_hash(Some(parent_key), name)),
    };
    if record.reasons.rename_old_name {
        forget_known_link(saved, record.parent_reference, name);
        remember_rename(saved, record.file_reference, place);
        let none: Vec<FilesystemEvent> = Vec::new();
        assert(event_models(none@) =~= Seq::empty());
        return RecordStep::Ready(none);
    }
    let file_link_id = if record.reasons.rename_new_name {
        let stable = match take_rename(saved, record.file_reference) {
            Some(id) => id,
            None => place,
        };
        remember_known_link(saved, record.parent_reference, name, stable);
        stable
    } else {
        place
    };
    if record.reasons.file_delete {
        forget_known_link(saved, record.parent_reference, name);
        let events = vec![
            FilesystemEvent::LinkRemoved { file_link_id, object_key },
            FilesystemEvent::ObjectRemoved { object_key },
        ];
        assert(event_models(events@) =~= seq![
            EventModel::LinkRemoved { file_link_id, object_key },
            EventModel::ObjectRemoved { object_key },
        ]);
        return RecordStep::Ready(events);
    }
    RecordStep::NeedsLookup(
        PendingChange {
            link: FileLinkSnapshot {
                file_link_id,
                object_key,
                parent_key: Some(parent_key),
                name: record.name.clone(),
            },
            reasons: record.reasons,
        },
    )
}

/// The changes of a record whose file was looked at.
pub fn complete_change(pending: PendingChange, lookup: ObjectLookup) -> (r: Vec<FilesystemEvent>)
    ensures
        event_models(r@) == completed(pending.link@, pending.reasons, lookup),
{
    let reasons = pending.reasons;
    let link = pending.link;
    let names = reasons.file_create || reasons.rename_new_name;
    let describes = reasons.file_create || reasons.basic_info_change || reasons.data_change;
    let ghost model = link@;
    let mut events: Vec<FilesystemEvent> = Vec::new();
    match lookup {
        ObjectLookup::Unavailable => {},
        ObjectLookup::Observed(object) => {
            if reasons.hard_link_change && !names {
                events.push(FilesystemEvent::LinkObserved { link });
            } else {
                if describes {
                    events.push(FilesystemEvent::ObjectObserved { object });
                }
                if names {
                    events.push(FilesystemEvent::LinkObserved { link });
                }
            }
        },
        ObjectLookup::Missing => {
            if reasons.hard_link_change && !names {
                events.push(
                    FilesystemEvent::LinkRemoved {
                        file_link_id: link.file_link_id,
                        object_key: link.object_key,
                    },
                );
            } else if names {
                events.push(FilesystemEvent::LinkObserved { link });
            }
        },
    }
    assert(event_models(events@) =~= completed(model, reasons, lookup));
    events
}

/// What a lookup that failed found: a file that may not be looked at, or is not there now, has no
/// changes; any other failure is one.
pub fn failed_lookup(error: PlatformError) -> (r: PlatformResult<ObjectLookup>)
    ensures
        match r {
            Ok(lookup) => (error.kind == PlatformErrorKind::PermissionDenied || error.kind
                == PlatformErrorKind::Unavailable) && lookup == ObjectLookup::Unavailable,
            Err(same) => error.kind != PlatformErrorKind::PermissionDenied && error.kind
                != PlatformErrorKind::Unavailable && same == error,
        },
{
    if error.kind == PlatformErrorKind::PermissionDenied || error.kind
        == PlatformErrorKind::Unavailable {
        Ok(ObjectLookup::Unavailable)
    } else {
        Err(error)
    }
}

/// The reading of changes up to a maximum.
pub struct ChangeReader {
    saved: WindowsCheckpoint,
    volume_id: VolumeId,
    maximum: u32,
    emitted: u32,
    end: i64,
}

/// A reading as a mathematical value.
pub struct ReaderModel {
    pub cursor: JournalCursor,
    pub volume_id: VolumeId,
    pub maximum: nat,
    pub emitted: nat,
    pub end: i64,
}

/// The smaller of two numbers.
pub open spec fn least(a: nat, b: nat) -> nat {
    if a < b {
        a
    } else {
        b
    }
}

/// The reading from a checkpoint: pending changes are reported first.
pub open spec fn reading(
    saved: JournalCursor,
    volume_id: VolumeId,
    before: JournalState,
    maximum: nat,
) -> ReaderModel {
    let reported = least(maximum, saved.pending_events.len());
    ReaderModel {
        cursor: JournalCursor {
            lowest_valid_position: retained(before),
            pending_events: saved.pending_events.skip(reported as int),
            ..saved
        },
        volume_id,
        maximum,
        emitted: reported,
        end: before.next_position,
    }
}

/// Whether the reading pauses before the next page, and then whether more is waiting.
pub open spec fn pauses(m: ReaderModel) -> Option<bool> {
    if m.cursor.pending_events.len() > 0 || m.emitted == m.maximum {
        Some(m.cursor.pending_events.len() > 0 || m.cursor.next_position < m.end)
    } else {
        None
    }
}

/// The reading after the changes of one record: as many are reported as the maximum leaves room
/// for, the others wait.
pub open spec fn reported(m: ReaderModel, events: Seq<EventModel>, next_position: i64) ->
    ReaderModel {
    let accepted = least((m.maximum - m.emitted) as nat, events.len());
    ReaderModel {
        cursor: JournalCursor {
            next_position,
            pending_events: if accepted < events.len() {
                events.skip(accepted as int)
            } else {
                m.cursor.pending_events
            },
            ..m.cursor
        },
        emitted: m.emitted + accepted,
        ..m
    }
}

impl ChangeReader {
    /// The reading as a mathematical value.
    pub closed spec fn view(&self) -> ReaderModel {
        ReaderModel {
            cursor: self.saved@,
            volume_id: self.volume_id,
            maximum: self.maximum as nat,
            emitted: self.emitted as nat,
            end: self.end,
        }
    }

    /// No more was reported than the maximum.
    pub closed spec fn wf(&self) -> bool {
        self.emitted <= self.maximum
    }

    /// Begins to read from a checkpoint, and returns the pending changes that are reported.
    pub fn begin(
        saved: WindowsCheckpoint,
        volume_id: VolumeId,
        before: JournalState,
        maximum: u32,
    ) -> (r: PlatformResult<(ChangeReader, Vec<FilesystemEvent>)>)
        ensures
            match r {
                Ok((reader, events)) => {
                    &&& continues(saved@, before.identity, retained(before))
                    &&& reader.wf()
                    &&& reader@ == reading(saved@, volume_id, before, maximum as nat)
                    &&& event_models(events@) + reader@.cursor.pending_events
                        == saved@.pending_events
                    &&& events@.len() == reader@.emitted
                },
                Err(error) => !continues(saved@, before.identity, retained(before))
                    && is_history_gap(error),
            },
    {
        let lowest: i64 = retained_start(before);
        match validate(&saved, before.identity, lowest) {
            Ok(()) => {},
            Err(error) => return Err(error),
        }
        let ghost all = saved.pending_events@;
        let mut saved = saved;
        let ghost cursor = saved@;
        saved.lowest_valid_position = lowest;
        let count: usize = if saved.pending_events.len() as u64 > maximum as u64 {
            maximum as usize
        } else {
            saved.pending_events.len()
        };
        let mut events: Vec<FilesystemEvent> = Vec::new();
        std::mem::swap(&mut events, &mut saved.pending_events);
        let waiting = events.split_off(count);
        saved.pending_events = waiting;
        proof {
            assert(event_models(saved.pending_events@) =~= event_models(all).skip(count as int));
            assert(event_models(events@) + event_models(saved.pending_events@) =~= event_models(
                all,
            ));
        }
        Ok(
            (
                ChangeReader {
                    saved,
                    volume_id,
                    maximum,
                    emitted: count as u32,
                    end: before.next_position,
                },
                events,
            ),
        )
    }

    /// Whether the reading pauses before the next page, and then whether more is waiting.
    pub fn pause(&self) -> (r: Option<bool>)
        ensures
            r == pauses(self@),
    {
        let waiting = self.saved.pending_events.len() > 0;
        if waiting || self.emitted == self.maximum {
            Some(waiting || self.saved.next_position < self.end)
        } else {
            None
        }
    }

    /// Where the next page starts, and in which journal.
    pub fn position(&self) -> (r: (i64, u64))
        ensures
            r.0 == self@.cursor.next_position,
            r.1 == self@.cursor.journal_identity,
    {
        (self.saved.next_position, self.saved.journal_identity)
    }

    /// Checks that a page does not end before it starts.
    pub fn check_page(&self, next_position: i64) -> (r: PlatformResult<()>)
        ensures
            match r {
                Ok(()) => next_position >= self@.cursor.next_position,
                Err(error) => next_position < self@.cursor.next_position && reports(
                    error,
                    PlatformErrorKind::Io,
                    "read_changes"@,
                    "journal cursor moved backwards"@,
                ),
            },
    {
        if next_position < self.saved.next_position {
            return Err(
                PlatformError::new(
                    PlatformErrorKind::Io,
                    "read_changes",
                    "journal cursor moved backwards",
                ),
            );
        }
        Ok(())
    }

    /// Takes a record.
    pub fn take_record(&mut self, record: &JournalRecord) -> (r: RecordStep)
        requires
            old(self).wf(),
        ensures
            final(self).wf(),
            ({
                let (cursor, outcome) = step(old(self)@.cursor, old(self)@.volume_id, *record);
                final(self)@ == (ReaderModel { cursor, ..old(self)@ }) && r@ == outcome
            }),
    {
        canonical_step(&mut self.saved, self.volume_id, record)
    }

    /// Takes the changes of a record. Returns those that are reported, and whether more is waiting
    /// if the reading pauses.
    pub fn report(&mut self, events: Vec<FilesystemEvent>, next_position: i64) -> (r: (
        Vec<FilesystemEvent>,
        Option<bool>,
    ))
        requires
            old(self).wf(),
            old(self)@.cursor.pending_events.len() == 0,
        ensures
            final(self).wf(),
            final(self)@ == reported(old(self)@, event_models(events@), next_position),
            event_models(r.0@) + final(self)@.cursor.pending_events == event_models(events@),
            r.1 == pauses(final(self)@),
    {
        let ghost all = events@;
        let mut events = events;
        let available: u32 = self.maximum - self.emitted;
        let accepted: usize = if events.len() as u64 > available as u64 {
            available as usize
        } else {
            events.len()
        };
        self.saved.next_position = next_position;
        self.emitted = self.emitted + accepted as u32;
        if accepted < events.len() {
            let waiting = events.split_off(accepted);
            self.saved.pending_events = waiting;
            proof {
                assert(event_models(self.saved.pending_events@) =~= event_models(all).skip(
                    accepted as int,
                ));
                assert(event_models(events@) + event_models(self.saved.pending_events@)
                    =~= event_models(all));
            }
        } else {
            assert(self.saved.pending_events@.len() == old(self)@.cursor.pending_events.len());
            assert(event_models(events@) + event_models(self.saved.pending_events@)
                =~= event_models(all));
        }
        let paused = self.pause();
        (events, paused)
    }

    /// Ends a page that was read to its end: the journal must still hold everything from here on.
    /// Says whether more is waiting.
    pub fn finish(&mut self, after: JournalState) -> (r: PlatformResult<bool>)
        requires
            old(self).wf(),
        ensures
            final(self).wf(),
            match r {
                Ok(has_more) => {
                    &&& continues(old(self)@.cursor, after.identity, retained(after))
                    &&& final(self)@ == (ReaderModel {
                        cursor: JournalCursor {
                            lowest_valid_position: retained(after),
                            ..old(self)@.cursor
                        },
                        ..old(self)@
                    })
                    &&& has_more == (old(self)@.cursor.next_position < after.next_position)
                },
                Err(error) => !continues(old(self)@.cursor, after.identity, retained(after))
                    && is_history_gap(error) && final(self)@ == old(self)@,
            },
    {
        let lowest: i64 = retained_start(after);
        match validate(&self.saved, after.identity, lowest) {
            Ok(()) => {},
            Err(error) => return Err(error),
        }
        self.saved.lowest_valid_position = lowest;
        Ok(self.saved.next_position < after.next_position)
    }

    /// The checkpoint to go on from, and how many changes were reported: never more than the
    /// maximum.
    pub fn into_checkpoint(self) -> (r: (WindowsCheckpoint, u32))
        requires
            self.wf(),
        ensures
            r.0@ == self@.cursor,
            r.1 == self@.emitted,
            r.1 <= self@.maximum,
    {
        (self.saved, self.emitted)
    }
}

/// Where the reading goes on after a record of a page: at the next record, or where the page ends.
pub fn position_after(records: &Vec<JournalRecord>, index: usize, page_end: i64) -> (r: i64)
    ensures
        r == (if index + 1 < records@.len() {
            records@[index + 1].position
        } else {
            page_end
        }),
{
    if index < records.len() && records.len() - index > 1 {
        records[index + 1].position
    } else {
        page_end
    }
}

/// No change is lost or reported twice, and no reading reports more than its maximum: what a
/// record gives is reported in part, and the next reading goes on with the rest.
pub proof fn waiting_changes_are_reported_next(
    m: ReaderModel,
    events: Seq<EventModel>,
    next_position: i64,
    before: JournalState,
    maximum: nat,
)
    requires
        m.emitted <= m.maximum,
        m.cursor.pending_events.len() == 0,
    ensures
        ({
            let after = reported(m, events, next_position);
            let again = reading(after.cursor, m.volume_id, before, maximum);
            &&& after.emitted <= m.maximum
            &&& again.emitted <= maximum
            &&& events == events.take(after.emitted - m.emitted) + after.cursor.pending_events
            &&& after.cursor.pending_events == after.cursor.pending_events.take(
                again.emitted as int,
            ) + again.cursor.pending_events
        }),
{
    let after = reported(m, events, next_position);
    let again = reading(after.cursor, m.volume_id, before, maximum);
    assert(events =~= events.take(after.emitted - m.emitted) + after.cursor.pending_events);
    assert(after.cursor.pending_events =~= after.cursor.pending_events.take(again.emitted as int)
        + again.cursor.pending_events);
}

/// A renamed file keeps its link: the record of its old name followed by the record of its new
/// name is about the link of the old place, and that link is known at the new place from then on.
pub proof fn rename_keeps_the_link(
    cursor: JournalCursor,
    volume_id: VolumeId,
    old_name: JournalRecord,
    new_name: JournalRecord,
)
    requires
        !old_name.had_invalid_utf16,
        old_name.reasons.rename_old_name,
        !new_name.had_invalid_utf16,
        !new_name.reasons.rename_old_name,
        new_name.reasons.rename_new_name,
        !new_name.reasons.file_delete,
        new_name.file_reference == old_name.file_reference,
    ensures
        ({
            let between = step(cursor, volume_id, old_name).0;
            let (after, outcome) = step(between, volume_id, new_name);
            let id = place_link(cursor, volume_id, old_name);
            &&& outcome is NeedsLookup
            &&& outcome->NeedsLookup_0.file_link_id == id
            &&& known(after.known_links, new_name.parent_reference, new_name.name@) == Some(id)
            &&& place_link(after, volume_id, new_name) == id
        }),
{
    let id = place_link(cursor, volume_id, old_name);
    let between = step(cursor, volume_id, old_name).0;
    remembered_rename_is_found(
        cursor.pending_renames,
        PendingRename { file_reference: old_name.file_reference, file_link_id: id },
        old_name.file_reference,
    );
    remembered_link_is_found(
        between.known_links,
        KnownLink {
            parent_reference: new_name.parent_reference,
            name: new_name.name@,
            file_link_id: id,
        },
        new_name.parent_reference,
        new_name.name@,
    );
}

/// What is reported of a file that was found: the object itself whenever it was created, or its
/// attributes or its content changed; the link whenever the file was created or renamed to this
/// name. A record of nothing but a change of hard links reports the link alone. Nothing else is
/// reported, and nothing twice.
pub proof fn found_files_are_reported(
    link: LinkSnapshotModel,
    reasons: ChangeReasons,
    object: FileObjectSnapshot,
)
    ensures
        ({
            let events = completed(link, reasons, ObjectLookup::Observed(object));
            let object_told = EventModel::ObjectObserved { object };
            let link_told = EventModel::LinkObserved { link };
            let links_only = reasons.hard_link_change && !reasons.file_create
                && !reasons.rename_new_name;
            &&& events.contains(object_told) <==> !links_only && (reasons.file_create
                || reasons.basic_info_change || reasons.data_change)
            &&& events.contains(link_told) <==> links_only || reasons.file_create
                || reasons.rename_new_name
            &&& forall|i: int|
                0 <= i < events.len() ==> (#[trigger] events[i]) == object_told || events[i]
                    == link_told
            &&& events.no_duplicates()
            &&& events.contains(object_told) && events.contains(link_told) ==> events
                == seq![object_told, link_told]
        }),
{
    let events = completed(link, reasons, ObjectLookup::Observed(object));
    let object_told = EventModel::ObjectObserved { object };
    let link_told = EventModel::LinkObserved { link };
    if events.len() > 0 {
        assert(events.contains(events[0]));
        assert(events.contains(events[events.len() - 1]));
        if events.len() == 2 {
            assert(events =~= seq![object_told, link_told]);
        }
    }
}

/// A file that cannot be looked at is passed over. Of a file that is not there the name is
/// reported if it was created or renamed to it; after a change of hard links alone the link is
/// gone, and nothing else is.
pub proof fn missing_files_are_reported_by_their_links(
    link: LinkSnapshotModel,
    reasons: ChangeReasons,
)
    ensures
        completed(link, reasons, ObjectLookup::Unavailable).len() == 0,
        ({
            let events = completed(link, reasons, ObjectLookup::Missing);
            let gone = EventModel::LinkRemoved {
                file_link_id: link.file_link_id,
                object_key: link.object_key,
            };
            let named = reasons.file_create || reasons.rename_new_name;
            &&& events.len() <= 1
            &&& named <==> events.contains(EventModel::LinkObserved { link })
            &&& reasons.hard_link_change && !named <==> events.contains(gone)
            &&& events.len() == 1 ==> named || reasons.hard_link_change
        }),
{
    let events = completed(link, reasons, ObjectLookup::Missing);
    if events.len() > 0 {
        assert(events.contains(events[0]));
    }
}

} // verus!
