//! Laws of the Windows provider.

use vstd::prelude::*;
use vstd::utf8::{char_is_scalar, char_u32_cast, encode_utf8, encode_utf8_decode_utf8};

use crate::catalog::{Availability, DescriptorModel, EventModel, FileKind, ReconciliationReason};
use crate::ids::{FileKey, FileLinkId, VolumeId};
use crate::platform::{PlatformError, PlatformErrorKind, PlatformResult};
use crate::search::ranking::occurs_at;
use crate::text::lowercase_of;
use crate::transport::{units_of, utf16_units};
use crate::windows::changes::{
    pauses, place_link, reading, record_link, reported, step, JournalRecord, ReaderModel,
    StepModel,
};
use crate::windows::checkpoint::{
    continues, fresh_cursor, known, readable, remembered_rename_is_found, rename_order, renamed,
    JournalCursor, PendingRename,
};
use crate::windows::identity::{
    before_zero, big_endian, displayed, link_bytes, object_of, scoped_bytes, utf16_text,
};
use crate::windows::journal::{
    error_kind, is_device_path, is_letter, retained, without_trailing_slashes, JournalState,
};
use crate::windows::scan::{
    ascii_lowered, crawl_step, descends, drives, entry_outcome, excludes, failure_kind,
    is_deepest_mount, metadata_of, names_ntfs, nonempty, scoped_source, time_of, CrawlAction,
    CrawlModel, EntryModel, EntryOutcome, NativeMetadata, ReadFailure,
};

verus! {

proof fn lemma_big_endian(a: u128, b: u128, n: nat)
    requires
        n <= 16,
        a < crate::windows::laws::power_of_256(n),
        b < crate::windows::laws::power_of_256(n),
    ensures
        big_endian(a, n).len() == n,
        big_endian(a, n) == big_endian(b, n) ==> a == b,
    decreases n,
{
    if n > 0 {
        let m = (n - 1) as nat;
        assert(a / 256 < power_of_256(m) && b / 256 < power_of_256(m)) by (nonlinear_arith)
            requires
                a < power_of_256(n),
                b < power_of_256(n),
                power_of_256(n) == 256 * power_of_256(m),
        ;
        lemma_big_endian(a / 256, b / 256, m);
        let x = big_endian(a, n);
        let y = big_endian(b, n);
        if x == y {
            assert(x.drop_last() =~= big_endian(a / 256, m));
            assert(y.drop_last() =~= big_endian(b / 256, m));
            assert(x.last() == (a % 256) as u8);
            assert(y.last() == (b % 256) as u8);
            assert((a % 256) as u8 == (b % 256) as u8);
        }
    }
}

/// A power of the base of bytes.
pub open spec fn power_of_256(n: nat) -> int
    decreases n,
{
    if n == 0 {
        1
    } else {
        256 * power_of_256((n - 1) as nat)
    }
}

proof fn lemma_whole_big_endian(a: u128, b: u128)
    ensures
        big_endian(a, 16).len() == 16,
        big_endian(a, 16) == big_endian(b, 16) ==> a == b,
{
    reveal_with_fuel(power_of_256, 17);
    lemma_big_endian(a, b, 16);
}

/// Different places are hashed from different bytes: those of a link tell its directory, with its
/// volume, and its name; those of a scoped source tell its volume and its root.
pub proof fn places_are_hashed_from_different_bytes(
    parent: FileKey,
    name: Seq<char>,
    other: FileKey,
    other_name: Seq<char>,
    a: u128,
    b: u128,
)
    ensures
        link_bytes(Some(parent), name) == link_bytes(Some(other), other_name) ==> parent == other
            && name == other_name,
        link_bytes(None, name) == link_bytes(None, other_name) ==> name == other_name,
        scoped_bytes(parent.volume_id, a) == scoped_bytes(other.volume_id, b)
            ==> parent.volume_id == other.volume_id && a == b,
{
    lemma_whole_big_endian(parent.volume_id.value, other.volume_id.value);
    lemma_whole_big_endian(other.volume_id.value, parent.volume_id.value);
    lemma_whole_big_endian(parent.file_id.value, other.file_id.value);
    lemma_whole_big_endian(other.file_id.value, parent.file_id.value);
    lemma_whole_big_endian(a, b);
    lemma_whole_big_endian(b, a);
    encode_utf8_decode_utf8(name);
    encode_utf8_decode_utf8(other_name);
    let x = link_bytes(Some(parent), name);
    let y = link_bytes(Some(other), other_name);
    if x == y {
        assert(x.subrange(0, 16) =~= big_endian(parent.volume_id.value, 16));
        assert(y.subrange(0, 16) =~= big_endian(other.volume_id.value, 16));
        assert(x.subrange(16, 32) =~= big_endian(parent.file_id.value, 16));
        assert(y.subrange(16, 32) =~= big_endian(other.file_id.value, 16));
        assert(x.skip(32) =~= encode_utf8(name));
        assert(y.skip(32) =~= encode_utf8(other_name));
    }
    let p = link_bytes(None, name);
    let q = link_bytes(None, other_name);
    assert(p =~= encode_utf8(name));
    assert(q =~= encode_utf8(other_name));
    let s = scoped_bytes(parent.volume_id, a);
    let t = scoped_bytes(other.volume_id, b);
    if s == t {
        assert(s.subrange(0, 16) =~= big_endian(parent.volume_id.value, 16));
        assert(t.subrange(0, 16) =~= big_endian(other.volume_id.value, 16));
        assert(s.subrange(16, 32) =~= big_endian(a, 16));
        assert(t.subrange(16, 32) =~= big_endian(b, 16));
    }
}

/// A file reference is one object of its volume, and no other reference or volume has it.
pub proof fn references_are_objects(v: VolumeId, w: VolumeId, a: u64, b: u64)
    ensures
        object_of(v, a).volume_id == v,
        object_of(v, a).file_id.value == a,
        object_of(v, a) == object_of(w, b) <==> v == w && a == b,
{
}

proof fn lemma_units_decode(c: char, rest: Seq<u16>)
    ensures
        utf16_text(units_of(c) + rest) == seq![c] + utf16_text(rest),
{
    let code = c as u32;
    char_is_scalar(c);
    char_u32_cast(c, code);
    let units = units_of(c) + rest;
    if code < 0x10000 {
        assert(units[0] == code as u16);
        assert(units.skip(1) =~= rest);
        assert((units[0] as u32) == code);
        assert((units[0] as u32) as char == c);
    } else {
        let high = (code - 0x10000) / 0x400;
        let low = (code - 0x10000) % 0x400;
        assert(0 <= high < 0x400 && 0 <= low < 0x400);
        assert(units[0] == 0xd800 + high);
        assert(units[1] == 0xdc00 + low);
        assert(units.skip(2) =~= rest);
        assert(high * 0x400 + low == code - 0x10000);
    }
}

proof fn lemma_first_units(text: Seq<char>)
    requires
        text.len() > 0,
    ensures
        utf16_units(text) == units_of(text[0]) + utf16_units(text.drop_first()),
    decreases text.len(),
{
    if text.len() == 1 {
        assert(text.drop_last() =~= Seq::empty());
        assert(text.drop_first() =~= Seq::empty());
        assert(utf16_units(text.drop_last()) =~= Seq::empty());
        assert(text.last() == text[0]);
        assert(utf16_units(text) =~= units_of(text[0]));
        assert(utf16_units(text) =~= units_of(text[0]) + utf16_units(text.drop_first()));
    } else {
        lemma_first_units(text.drop_last());
        assert(text.drop_last().drop_first() =~= text.drop_first().drop_last());
        assert(utf16_units(text) =~= units_of(text[0]) + utf16_units(text.drop_first()));
    }
}

/// A text that was written as UTF-16 is read back unchanged.
pub proof fn utf16_is_read_back(text: Seq<char>)
    ensures
        utf16_text(utf16_units(text)) == text,
    decreases text.len(),
{
    if text.len() > 0 {
        lemma_first_units(text);
        lemma_units_decode(text[0], utf16_units(text.drop_first()));
        utf16_is_read_back(text.drop_first());
        assert(seq![text[0]] + text.drop_first() =~= text);
    }
}

/// Units that spell a text end before the first zero.
pub proof fn texts_end_before_the_first_zero(units: Seq<u16>, rest: Seq<u16>)
    requires
        !units.contains(0),
    ensures
        before_zero(units) == units,
        before_zero(units + seq![0u16] + rest) == units,
    decreases units.len(),
{
    let all = units + seq![0u16] + rest;
    if units.len() == 0 {
        assert(all[0] == 0);
        assert(before_zero(all) =~= units);
        assert(before_zero(units) =~= units);
    } else {
        let tail = units.drop_first();
        assert(units.contains(units[0]));
        assert(!tail.contains(0)) by {
            if tail.contains(0) {
                let i = tail.index_of(0);
                assert(units[i + 1] == 0);
                assert(units.contains(0));
            }
        }
        texts_end_before_the_first_zero(tail, rest);
        assert(all.drop_first() =~= tail + seq![0u16] + rest);
        assert(seq![units[0]] + tail =~= units);
    }
}

/// A path is shown without the prefix that lifts its length limit: a network path keeps its two
/// slashes, and any other path is shown as it is.
pub proof fn paths_are_shown_without_their_prefix(rest: Seq<char>)
    ensures
        displayed("\\\\?\\UNC\\"@ + rest) == "\\\\"@ + rest,
        !occurs_at(rest, "UNC\\"@, 0) ==> displayed("\\\\?\\"@ + rest) == rest,
        !occurs_at(rest, "\\\\?\\"@, 0) ==> displayed(rest) == rest,
{
    reveal_strlit("\\\\?\\UNC\\");
    reveal_strlit("\\\\?\\");
    reveal_strlit("UNC\\");
    let long = "\\\\?\\UNC\\"@;
    let short = "\\\\?\\"@;
    let network = long + rest;
    assert(network.subrange(0, long.len() as int) =~= long);
    assert(network.skip(long.len() as int) =~= rest);
    let local = short + rest;
    assert(local.subrange(0, short.len() as int) =~= short);
    assert(local.skip(short.len() as int) =~= rest);
    if occurs_at(local, long, 0) {
        assert(local.subrange(0, 8) == long);
        assert forall|i: int| 0 <= i < 4 implies rest[i] == "UNC\\"@[i] by {
            assert(local[i + 4] == local.subrange(0, 8)[i + 4]);
        }
        assert(rest.subrange(0, 4) =~= "UNC\\"@);
    }
    if occurs_at(rest, long, 0) {
        assert forall|i: int| 0 <= i < 4 implies rest[i] == short[i] by {
            assert(rest[i] == rest.subrange(0, 8)[i]);
        }
        assert(rest.subrange(0, 4) =~= short);
    }
}

/// Slashes are dropped at the end, all of them and nothing else.
pub proof fn only_trailing_slashes_are_dropped(text: Seq<char>)
    ensures
        ({
            let kept = without_trailing_slashes(text);
            &&& kept.is_prefix_of(text)
            &&& kept.len() > 0 ==> kept.last() != '\\' && kept.last() != '/'
            &&& forall|i: int|
                kept.len() <= i < text.len() ==> #[trigger] text[i] == '\\' || text[i] == '/'
        }),
    decreases text.len(),
{
    if text.len() > 0 && (text.last() == '\\' || text.last() == '/') {
        only_trailing_slashes_are_dropped(text.drop_last());
        let kept = without_trailing_slashes(text);
        assert forall|i: int| kept.len() <= i < text.len() implies #[trigger] text[i] == '\\'
            || text[i] == '/' by {
            if i < text.len() - 1 {
                assert(text.drop_last()[i] == text[i]);
            }
        }
        assert(kept =~= text.take(kept.len() as int));
    }
}

/// The history that is still there starts at the later of the two positions.
pub proof fn history_starts_at_the_later_position(state: JournalState)
    ensures
        retained(state) >= state.first_position,
        retained(state) >= state.lowest_valid_position,
        retained(state) == state.first_position || retained(state) == state.lowest_valid_position,
{
}

/// Reading goes on from a checkpoint exactly while it is the same journal and nothing after the
/// checkpoint was discarded.
pub proof fn reading_needs_unbroken_history(saved: JournalCursor, identity: u64, lowest: i64)
    ensures
        continues(saved, saved.journal_identity, saved.next_position),
        continues(saved, identity, lowest) ==> identity == saved.journal_identity && forall|
            earlier: i64,
        |
            earlier <= lowest ==> #[trigger] continues(saved, identity, earlier),
        lowest > saved.next_position ==> !continues(saved, identity, lowest),
        identity != saved.journal_identity ==> !continues(saved, identity, lowest),
        lowest <= saved.next_position ==> continues(saved, saved.journal_identity, lowest),
{
}

/// A checkpoint that starts anew waits for nothing and knows no link.
pub proof fn fresh_checkpoints_are_empty(identity: u64, next: i64, lowest: i64, name: Seq<char>)
    ensures
        ({
            let cursor = fresh_cursor(identity, next, lowest);
            &&& cursor.journal_identity == identity
            &&& cursor.next_position == next
            &&& cursor.lowest_valid_position == lowest
            &&& cursor.pending_events.len() == 0
            &&& forall|r: u64| #[trigger] renamed(cursor.pending_renames, r) is None
            &&& forall|p: u64| #[trigger] known(cursor.known_links, p, name) is None
            &&& continues(cursor, identity, lowest) <==> next >= lowest
        }),
{
}

/// Only checkpoints of this provider are read, in the current format and the one before.
pub proof fn foreign_checkpoints_are_refused(provider_id: Seq<char>, format_version: u32)
    ensures
        readable(provider_id, format_version) ==> provider_id
            == crate::windows::checkpoint::PROVIDER_ID@ && 2 <= format_version <= 3,
        readable(crate::windows::checkpoint::PROVIDER_ID@, 2),
        readable(crate::windows::checkpoint::PROVIDER_ID@, 3),
{
}

/// Lost history is told apart from a refusal, from what is not there now and from what cannot be
/// read at all; every other failure is one of input and output.
pub proof fn native_failures_are_told_apart(code: i32)
    ensures
        error_kind(Some(code)) == PlatformErrorKind::PermissionDenied <==> code == 5,
        error_kind(Some(code)) == PlatformErrorKind::Unavailable <==> code == 2 || code == 3 || code
            == 21 || code == 1178,
        error_kind(Some(code)) == PlatformErrorKind::Unsupported <==> code == 1179,
        error_kind(Some(code)) == PlatformErrorKind::SourceHistoryGap <==> code == 1181,
        error_kind(None) == PlatformErrorKind::Io,
{
}

/// A record that deletes a file reports that its link and the file are gone, in that order, and the
/// link is not known at its place any more where it was.
pub proof fn deletions_are_reported(
    cursor: JournalCursor,
    volume_id: VolumeId,
    record: JournalRecord,
)
    requires
        !record.had_invalid_utf16,
        record.reasons.file_delete,
        !record.reasons.rename_old_name,
    ensures
        ({
            let (next, outcome) = step(cursor, volume_id, record);
            let object_key = object_of(volume_id, record.file_reference);
            &&& outcome matches StepModel::Ready(events) && events == seq![
                EventModel::LinkRemoved {
                    file_link_id: record_link(cursor, volume_id, record),
                    object_key,
                },
                EventModel::ObjectRemoved { object_key },
            ]
            &&& next.next_position == cursor.next_position
            &&& next.pending_events == cursor.pending_events
        }),
{
}

/// The link of a record is the one that is known at its place, or the one that a renamed file
/// brings along; the place itself is hashed only where neither is known.
pub proof fn records_keep_known_links(
    cursor: JournalCursor,
    volume_id: VolumeId,
    record: JournalRecord,
    id: FileLinkId,
)
    ensures
        record.reasons.rename_new_name && renamed(cursor.pending_renames, record.file_reference)
            == Some(id) ==> record_link(cursor, volume_id, record) == id,
        !record.reasons.rename_new_name && known(
            cursor.known_links,
            record.parent_reference,
            record.name@,
        ) == Some(id) ==> record_link(cursor, volume_id, record) == id,
        known(cursor.known_links, record.parent_reference, record.name@) is None && (
        record.reasons.rename_new_name ==> renamed(cursor.pending_renames, record.file_reference)
            is None) ==> record_link(cursor, volume_id, record).value
            == crate::windows::identity::hash(
            link_bytes(Some(object_of(volume_id, record.parent_reference)), record.name@),
        ),
{
}

/// Any other record of a valid name needs a look at its file: the link that it names lies in the
/// directory of the record, under its name, and names its file. A name that cannot be read asks
/// for reconciliation of the volume and changes nothing else; an old name is kept until the new
/// one comes.
pub proof fn records_name_their_file(
    cursor: JournalCursor,
    volume_id: VolumeId,
    record: JournalRecord,
)
    ensures
        ({
            let (next, outcome) = step(cursor, volume_id, record);
            &&& record.had_invalid_utf16 ==> next == cursor && outcome == StepModel::Ready(
                seq![
                    EventModel::ReconciliationRequired {
                        volume_id,
                        reason: ReconciliationReason::ProviderRequested,
                    },
                ],
            )
            &&& !record.had_invalid_utf16 && record.reasons.rename_old_name ==> outcome
                == StepModel::Ready(Seq::empty()) && renamed(
                next.pending_renames,
                record.file_reference,
            ) == Some(place_link(cursor, volume_id, record))
            &&& !record.had_invalid_utf16 && !record.reasons.rename_old_name
                && !record.reasons.file_delete ==> (outcome matches StepModel::NeedsLookup(
                link,
                reasons,
            ) && {
                &&& link.object_key == object_of(volume_id, record.file_reference)
                &&& link.parent_key == Some(object_of(volume_id, record.parent_reference))
                &&& link.name == record.name@
                &&& link.file_link_id == record_link(cursor, volume_id, record)
                &&& reasons == record.reasons
                &&& !record.reasons.rename_new_name ==> next == cursor
            })
            &&& next.journal_identity == cursor.journal_identity
            &&& next.pending_events == cursor.pending_events
        }),
{
    remembered_rename_is_found(
        cursor.pending_renames,
        PendingRename {
            file_reference: record.file_reference,
            file_link_id: place_link(cursor, volume_id, record),
        },
        record.file_reference,
    );
}

/// A reading reports as much as it may: it pauses exactly where changes wait or the maximum is
/// reached, and says truly whether anything is left.
pub proof fn readings_report_as_much_as_they_may(
    m: ReaderModel,
    events: Seq<EventModel>,
    next_position: i64,
    before: JournalState,
    maximum: nat,
    saved: JournalCursor,
)
    requires
        m.emitted <= m.maximum,
        m.cursor.pending_events.len() == 0,
    ensures
        ({
            let after = reported(m, events, next_position);
            &&& after.cursor.next_position == next_position
            &&& after.maximum == m.maximum && after.end == m.end
            &&& m.emitted + events.len() <= m.maximum ==> after.cursor.pending_events.len() == 0
                && after.emitted == m.emitted + events.len()
            &&& m.emitted + events.len() > m.maximum ==> after.emitted == m.maximum
                && after.cursor.pending_events == events.skip((m.maximum - m.emitted) as int)
            &&& pauses(after) is None <==> m.emitted + events.len() < m.maximum
            &&& pauses(after) matches Some(more) ==> (more <==> m.emitted + events.len() > m.maximum
                || next_position < m.end)
        }),
        ({
            let begun = reading(saved, m.volume_id, before, maximum);
            &&& begun.end == before.next_position
            &&& begun.maximum == maximum
            &&& begun.cursor.next_position == saved.next_position
            &&& begun.cursor.journal_identity == saved.journal_identity
            &&& begun.cursor.lowest_valid_position == retained(before)
            &&& begun.emitted + begun.cursor.pending_events.len() == saved.pending_events.len()
            &&& begun.cursor.pending_events.len() > 0 ==> begun.emitted == maximum
        }),
{
}

/// A time is whole milliseconds since 1970: it grows with the ticks, and a time before has none.
pub proof fn times_are_milliseconds_since_1970(millis: u64, ticks: u64, later: u64)
    requires
        millis <= 0x7fff_ffff_ffff,
        ticks < 10_000,
    ensures
        time_of((116_444_736_000_000_000 + millis * 10_000 + ticks) as u64) == Some(
            millis as i64,
        ),
        later < 116_444_736_000_000_000 ==> time_of(later) is None,
        forall|value: u64|
            value <= later && #[trigger] time_of(value) is Some ==> time_of(later) is Some
                && time_of(value)->0 <= time_of(later)->0,
{
    let value = (116_444_736_000_000_000 + millis * 10_000 + ticks) as u64;
    assert(116_444_736_000_000_000 + millis * 10_000 + ticks <= u64::MAX);
    assert((millis * 10_000 + ticks) / 10_000 == millis);
}

/// What is read of a file is told as it is: its size, when it was made and when it was last
/// written, and whether it is hidden. A directory is one whatever else it is, then a link.
pub proof fn metadata_is_told_as_it_is(native: NativeMetadata)
    ensures
        ({
            let told = metadata_of(native);
            &&& told.size == native.size
            &&& told.created_at_unix_ms == time_of(native.creation_time)
            &&& told.modified_at_unix_ms == time_of(native.last_write_time)
            &&& told.hidden <==> native.attributes & 2 == 2
            &&& told.availability == Availability::Online
            &&& told.kind == FileKind::Directory <==> native.is_directory
            &&& told.kind == FileKind::Symlink <==> native.is_symlink && !native.is_directory
            &&& told.kind == FileKind::File <==> native.is_file && !native.is_directory
                && !native.is_symlink
            &&& told.kind == FileKind::Other <==> !native.is_file && !native.is_directory
                && !native.is_symlink
        }),
{
    let bits = native.attributes;
    assert(bits & 2 == 2 <==> bits & 2 != 0) by (bit_vector);
}

/// A scan goes into every directory that is neither a reparse point nor of an excluded name,
/// whatever the case of the name, and into nothing else.
pub proof fn scans_enter_plain_directories(
    excluded: Seq<Seq<char>>,
    name: Seq<char>,
    native: NativeMetadata,
)
    ensures
        descends(excluded, name, native) <==> {
            &&& native.is_directory
            &&& native.attributes & 0x400 == 0
            &&& forall|i: int|
                0 <= i < excluded.len() ==> #[trigger] excluded[i] != lowercase_of(name)
        },
        descends(Seq::empty(), name, native) <==> native.is_directory && native.attributes & 0x400
            == 0,
{
    if excludes(excluded, name) {
        let i = excluded.index_of(lowercase_of(name));
        assert(excluded[i] == lowercase_of(name));
    } else {
        assert forall|i: int| 0 <= i < excluded.len() implies #[trigger] excluded[i]
            != lowercase_of(name) by {
            assert(excluded.contains(excluded[i]));
        }
    }
}

/// An entry that was read is reported with its object and its link, which lies in the directory
/// under the name that was read.
pub proof fn entries_are_reported_where_they_lie(
    volume_id: VolumeId,
    parent: Option<FileKey>,
    excluded: Seq<Seq<char>>,
    name: Seq<char>,
    reference: u64,
    metadata: NativeMetadata,
)
    ensures
        entry_outcome(
            volume_id,
            parent,
            excluded,
            EntryModel::Read { name, reference, metadata },
        ) matches EntryOutcome::Observed { object, link, descend } && {
            &&& object.object_key == object_of(volume_id, reference)
            &&& object.metadata == metadata_of(metadata)
            &&& link.object_key == object.object_key
            &&& link.parent_key == parent
            &&& link.name == name
            &&& link.file_link_id.value == crate::windows::identity::hash(link_bytes(parent, name))
            &&& descend <==> descends(excluded, name, metadata)
        },
{
}

/// What is gone or may not be read is passed over; any other failure ends the scan.
pub proof fn unreadable_entries_are_passed_over(
    volume_id: VolumeId,
    parent: Option<FileKey>,
    excluded: Seq<Seq<char>>,
    failure: ReadFailure,
    detail: Seq<char>,
)
    ensures
        entry_outcome(
            volume_id,
            parent,
            excluded,
            EntryModel::EntryFailed { failure, detail },
        ) is Skipped <==> failure == ReadFailure::NotFound || failure
            == ReadFailure::PermissionDenied,
        entry_outcome(
            volume_id,
            parent,
            excluded,
            EntryModel::MetadataFailed { failure, detail },
        ) is Skipped <==> failure == ReadFailure::NotFound || failure
            == ReadFailure::PermissionDenied,
        entry_outcome(volume_id, parent, excluded, EntryModel::EntryFailed { failure, detail }) is
            Observed == false,
        entry_outcome(
            volume_id,
            parent,
            excluded,
            EntryModel::MetadataFailed { failure, detail },
        ) is Observed == false,
{
}

/// A scan takes the entries one by one: each that was read is reported with its object first and
/// its link after it, counts as two changes, and is taken once; a directory that was read to its
/// end is left, and the scan is complete when none is open.
pub proof fn scans_take_entries_one_by_one(m: CrawlModel)
    ensures
        m.open.len() == 0 ==> (crawl_step(m) matches Ok((next, action)) && next == m && action
            is Complete),
        m.open.len() > 0 && m.open.last().entries.len() == 0 ==> (crawl_step(m) matches Ok(
            (next, action),
        ) && next.open == m.open.drop_last() && action is Continue && next.emitted == m.emitted),
        m.open.len() > 0 && m.open.last().entries.len() > 0 ==> (crawl_step(m) matches Ok(
            (next, action),
        ) ==> {
            let top = m.open.last();
            let outcome = entry_outcome(m.volume_id, top.key, m.excluded, top.entries[0]);
            &&& !(action is Complete)
            &&& next.open.len() == m.open.len()
            &&& next.open.last().key == top.key
            &&& next.open.last().entries == top.entries.drop_first()
            &&& forall|i: int|
                0 <= i < m.open.len() - 1 ==> #[trigger] next.open[i] == m.open[i]
            &&& action is Report <==> outcome is Observed
            &&& next.emitted == m.emitted + (if action is Report {
                2int
            } else {
                0
            })
            &&& action matches CrawlAction::Report { events, enter } ==> {
                &&& events == seq![
                    EventModel::ObjectObserved { object: outcome->object },
                    EventModel::LinkObserved { link: outcome->link },
                ]
                &&& enter == if outcome->descend {
                    Some(outcome->object.object_key)
                } else {
                    None
                }
            }
        }),
{
}

/// A scoped source differs from its volume in its identity and in where it is shown, and in nothing
/// else.
pub proof fn scoped_sources_are_shown_at_their_root(native: DescriptorModel, canonical: Seq<char>)
    ensures
        ({
            let source = scoped_source(native, canonical);
            &&& source.filesystem == native.filesystem
            &&& source.removable == native.removable
            &&& source.local == native.local
            &&& source.display_name == Some(displayed(canonical))
            &&& source.mount_points == seq![displayed(canonical)]
        }),
{
}

/// The filesystem is recognised whatever the case of its letters, and by its four letters alone.
pub proof fn filesystems_are_recognised_in_any_case(text: Seq<char>)
    ensures
        names_ntfs(text) <==> {
            &&& text.len() == 4
            &&& text[0] == 'n' || text[0] == 'N'
            &&& text[1] == 't' || text[1] == 'T'
            &&& text[2] == 'f' || text[2] == 'F'
            &&& text[3] == 's' || text[3] == 'S'
        },
{
    if text.len() == 4 {
        lemma_lowered(text[0]);
        lemma_lowered(text[1]);
        lemma_lowered(text[2]);
        lemma_lowered(text[3]);
    }
}

proof fn lemma_lowered(c: char)
    ensures
        ascii_lowered(c) == 'n' <==> c == 'n' || c == 'N',
        ascii_lowered(c) == 't' <==> c == 't' || c == 'T',
        ascii_lowered(c) == 'f' <==> c == 'f' || c == 'F',
        ascii_lowered(c) == 's' <==> c == 's' || c == 'S',
{
    char_is_scalar(c);
}

/// A drive is listed exactly where its bit is set, under its letter.
pub proof fn drives_are_listed_by_their_bits(mask: u32, n: nat, index: u32)
    requires
        n <= 26,
        index < 26,
    ensures
        drives(mask, n).contains(
            seq![crate::windows::scan::drive_letter(index as nat), ':', '\\'],
        ) <==> index < n && mask & (1u32 << index) != 0,
    decreases n,
{
    let root = seq![crate::windows::scan::drive_letter(index as nat), ':', '\\'];
    if n > 0 {
        let m = (n - 1) as nat;
        drives_are_listed_by_their_bits(mask, m, index);
        let before = drives(mask, m);
        let all = drives(mask, n);
        let last = seq![crate::windows::scan::drive_letter(m), ':', '\\'];
        assert(last == root <==> m == index) by {
            assert(last[0] == crate::windows::scan::drive_letter(m));
            assert(root[0] == crate::windows::scan::drive_letter(index as nat));
            lemma_letters(m, index as nat);
        }
        if crate::windows::scan::has_drive(mask, m as int) {
            assert(all[all.len() - 1] == last);
            if before.contains(root) {
                assert(all[before.index_of(root)] == root);
            }
            if all.contains(root) && root != last {
                let i = all.index_of(root);
                assert(before[i] == root);
            }
        }
    }
}

proof fn lemma_letters(a: nat, b: nat)
    requires
        a < 26,
        b < 26,
    ensures
        crate::windows::scan::drive_letter(a) == crate::windows::scan::drive_letter(b) ==> a == b,
{
}

/// The mount above a root is the one with the longest path, and of several the last: a further
/// mount is taken exactly where none above the root is longer.
pub proof fn the_longest_mount_is_taken(
    lengths: Seq<Option<usize>>,
    r: Option<usize>,
    other: Option<usize>,
    more: usize,
)
    requires
        is_deepest_mount(lengths, r),
        is_deepest_mount(lengths, other),
        lengths.len() < usize::MAX,
    ensures
        r == other,
        is_deepest_mount(lengths.push(None), r),
        ({
            let longer = r matches Some(i) && lengths[i as int]->0 > more;
            is_deepest_mount(
                lengths.push(Some(more)),
                if longer {
                    r
                } else {
                    Some(lengths.len() as usize)
                },
            )
        }),
{
    let next = lengths.push(Some(more));
    let same = lengths.push(None);
    assert forall|k: int| 0 <= k < lengths.len() implies next[k] == lengths[k] && same[k]
        == lengths[k] by {}
    match (r, other) {
        (Some(i), Some(j)) => {
            assert(lengths[i as int] is Some && lengths[j as int] is Some);
        },
        (Some(i), None) => {
            assert(lengths[i as int] is None);
        },
        (None, Some(j)) => {
            assert(lengths[j as int] is None);
        },
        (None, None) => {},
    }
}

/// A volume with a drive letter is opened by the letter, whatever it is shown as; one without by
/// its name, but for slashes at the end.
pub proof fn volumes_are_opened_by_letter_or_name(
    r: PlatformResult<String>,
    units: Seq<u16>,
    display: Seq<char>,
    letter: char,
)
    requires
        is_device_path(r, units, display),
    ensures
        units.len() >= 2 && units[1] == 0x3a && units[0] == letter as u32 ==> (r matches Ok(path)
            && path@ == "\\\\.\\"@ + seq![letter] + ":"@),
        units.len() >= 2 && units[1] == 0x3a && (0xd800 <= units[0] <= 0xdfff) ==> r is Err,
        !(units.len() >= 2 && units[1] == 0x3a) ==> (r matches Ok(path) ==> path@
            == without_trailing_slashes(display)),
        !(units.len() >= 2 && units[1] == 0x3a) ==> (r is Ok <==> occurs_at(
            display,
            "\\\\?\\Volume{"@,
            0,
        )),
{
    if units.len() >= 2 && units[1] == 0x3a {
        char_is_scalar(letter);
        if let Ok(path) = r {
            let found = choose|c: char| #[trigger]
                is_letter(c, units[0]) && path@ == "\\\\.\\"@ + seq![c] + ":"@;
            assert(is_letter(found, units[0]));
            let code = found as u32;
            char_is_scalar(found);
            char_u32_cast(found, code);
            if units[0] == letter as u32 {
                char_u32_cast(letter, code);
            }
        }
    }
}

/// An entry without an identity is passed over exactly where it is gone or may not be read; any
/// other failure ends the scan as it came.
pub proof fn unidentified_entries_are_passed_over(
    volume_id: VolumeId,
    parent: Option<FileKey>,
    excluded: Seq<Seq<char>>,
    error: PlatformError,
)
    ensures
        ({
            let outcome = entry_outcome(
                volume_id,
                parent,
                excluded,
                EntryModel::IdentityFailed { error },
            );
            let passed = error.kind == PlatformErrorKind::PermissionDenied || error.kind
                == PlatformErrorKind::Unavailable;
            &&& passed ==> outcome is Skipped
            &&& !passed ==> (outcome matches EntryOutcome::Failed { kind, operation, detail }
                && kind == error.kind && operation == error.operation@ && detail == error.detail@)
        }),
        failure_kind(ReadFailure::PermissionDenied) == PlatformErrorKind::PermissionDenied,
        failure_kind(ReadFailure::NotFound) == PlatformErrorKind::Unavailable,
        failure_kind(ReadFailure::Other) == PlatformErrorKind::Io,
{
}

/// The 26 letters are lowered to the letters 32 further on and nothing else changes, so that
/// lowering twice is lowering once.
pub proof fn letters_alone_are_lowered(c: char)
    ensures
        0x41 <= c as u32 <= 0x5a ==> ascii_lowered(c) as u32 == c as u32 + 32,
        !(0x41 <= c as u32 <= 0x5a) ==> ascii_lowered(c) == c,
        ascii_lowered(ascii_lowered(c)) == ascii_lowered(c),
{
    char_is_scalar(c);
}

/// A label is told as it is, unless it is empty.
pub proof fn empty_labels_are_not_told(text: Seq<char>)
    ensures
        text.len() > 0 ==> nonempty(text) == Some(text),
        nonempty(Seq::empty()) is None,
{
}

/// Renames are ordered by their file, from the smallest reference on; files with the same one may
/// stand either way.
pub proof fn renames_are_ordered_by_their_file(a: PendingRename, b: PendingRename)
    ensures
        rename_order()(a, b) || rename_order()(b, a),
        a.file_reference < b.file_reference ==> !rename_order()(b, a),
        rename_order()(a, b) && rename_order()(b, a) <==> a.file_reference == b.file_reference,
{
}

} // verus!
