//! The checkpoint of the journal: where to read on, and which links were renamed.

use vstd::prelude::*;

use crate::catalog::{event_models, EventModel, FilesystemEvent, ProviderCheckpoint};
use crate::collate::{
    compare_texts, lemma_text_order_equal, lemma_text_order_transitive, text_order,
};
use crate::ids::{FileLinkId, VolumeId};
use crate::platform::{reports, PlatformError, PlatformErrorKind, PlatformResult};
use crate::sorting::{ascending, lemma_placed_at};
use crate::text::same_text;

verus! {

/// The provider that writes these checkpoints.
pub const PROVIDER_ID: &'static str = "localsearch.windows-fs";

/// A link whose old name was seen and whose new name was not.
#[derive(Clone, Copy, Debug, PartialEq, Eq, Structural)]
pub struct PendingRename {
    /// The renamed file.
    pub file_reference: u64,
    /// Its link.
    pub file_link_id: FileLinkId,
}

/// A link that was renamed and keeps its identity.
#[derive(Clone, Debug, PartialEq, Eq)]
pub struct KnownLinkIdentity {
    /// Directory of the link.
    pub parent_reference: u64,
    /// Its name there.
    pub name: String,
    /// The link.
    pub file_link_id: FileLinkId,
}

/// A renamed link as a mathematical value.
pub struct KnownLink {
    pub parent_reference: u64,
    pub name: Seq<char>,
    pub file_link_id: FileLinkId,
}

impl View for KnownLinkIdentity {
    type V = KnownLink;

    open spec fn view(&self) -> KnownLink {
        KnownLink {
            parent_reference: self.parent_reference,
            name: self.name@,
            file_link_id: self.file_link_id,
        }
    }
}

/// The views of several renamed links.
pub open spec fn known_models(links: Seq<KnownLinkIdentity>) -> Seq<KnownLink> {
    Seq::new(links.len(), |i: int| links[i]@)
}

/// Where the journal is read on.
#[derive(Clone, Debug, PartialEq, Eq)]
pub struct WindowsCheckpoint {
    /// The journal.
    pub journal_identity: u64,
    /// The next record.
    pub next_position: i64,
    /// The first record that is still there.
    pub lowest_valid_position: i64,
    /// Generation of the snapshot.
    pub snapshot_generation: u64,
    /// Changes that were read and not reported.
    pub pending_events: Vec<FilesystemEvent>,
    /// Links whose new name was not seen.
    pub pending_renames: Vec<PendingRename>,
    /// Links that were renamed.
    pub known_links: Vec<KnownLinkIdentity>,
}

/// A checkpoint as a mathematical value.
pub struct JournalCursor {
    pub journal_identity: u64,
    pub next_position: i64,
    pub lowest_valid_position: i64,
    pub snapshot_generation: u64,
    pub pending_events: Seq<EventModel>,
    pub pending_renames: Seq<PendingRename>,
    pub known_links: Seq<KnownLink>,
}

impl View for WindowsCheckpoint {
    type V = JournalCursor;

    open spec fn view(&self) -> JournalCursor {
        JournalCursor {
            journal_identity: self.journal_identity,
            next_position: self.next_position,
            lowest_valid_position: self.lowest_valid_position,
            snapshot_generation: self.snapshot_generation,
            pending_events: event_models(self.pending_events@),
            pending_renames: self.pending_renames@,
            known_links: known_models(self.known_links@),
        }
    }
}

/// A checkpoint without renames and pending changes.
pub open spec fn fresh_cursor(identity: u64, next: i64, lowest: i64) -> JournalCursor {
    JournalCursor {
        journal_identity: identity,
        next_position: next,
        lowest_valid_position: lowest,
        snapshot_generation: 1,
        pending_events: Seq::empty(),
        pending_renames: Seq::empty(),
        known_links: Seq::empty(),
    }
}

impl WindowsCheckpoint {
    /// A checkpoint without renames and pending changes.
    pub fn fresh(journal_identity: u64, next_position: i64, lowest_valid_position: i64) -> (r: Self)
        ensures
            r@ == fresh_cursor(journal_identity, next_position, lowest_valid_position),
    {
        let r = WindowsCheckpoint {
            journal_identity,
            next_position,
            lowest_valid_position,
            snapshot_generation: 1,
            pending_events: Vec::new(),
            pending_renames: Vec::new(),
            known_links: Vec::new(),
        };
        assert(event_models(r.pending_events@) =~= Seq::empty());
        assert(known_models(r.known_links@) =~= Seq::empty());
        assert(r.pending_renames@ =~= Seq::empty());
        r
    }
}

/// The checkpoint was written by this provider in a format that can be read.
pub open spec fn readable(provider_id: Seq<char>, format_version: u32) -> bool {
    provider_id == PROVIDER_ID@ && (format_version == 2 || format_version == 3)
}

/// Checks who wrote a checkpoint, and in which format.
pub fn check_format(value: &ProviderCheckpoint) -> (r: PlatformResult<()>)
    ensures
        match r {
            Ok(()) => readable(value.provider_id@, value.format_version),
            Err(error) => !readable(value.provider_id@, value.format_version) && reports(
                error,
                PlatformErrorKind::InvalidCheckpoint,
                "decode_checkpoint"@,
                "provider or format mismatch"@,
            ),
        },
{
    if !same_text(value.provider_id.as_str(), PROVIDER_ID) || (value.format_version != 2
        && value.format_version != 3) {
        return Err(
            PlatformError::new(
                PlatformErrorKind::InvalidCheckpoint,
                "decode_checkpoint",
                "provider or format mismatch",
            ),
        );
    }
    Ok(())
}

/// Wraps the bytes of a checkpoint.
pub fn wrap(volume_id: VolumeId, opaque: Vec<u8>) -> (r: ProviderCheckpoint)
    ensures
        r.provider_id@ == PROVIDER_ID@,
        r.format_version == 3,
        r.volume_id == volume_id,
        r.opaque@ == opaque@,
        readable(r.provider_id@, r.format_version),
{
    ProviderCheckpoint { provider_id: PROVIDER_ID.to_owned(), format_version: 3, volume_id, opaque }
}

/// The journal still holds everything from the checkpoint on.
pub open spec fn continues(saved: JournalCursor, identity: u64, lowest: i64) -> bool {
    saved.journal_identity == identity && saved.next_position >= lowest
}

/// The failure of a checkpoint whose history is gone.
pub open spec fn is_history_gap(error: PlatformError) -> bool {
    reports(
        error,
        PlatformErrorKind::SourceHistoryGap,
        "validate_checkpoint"@,
        "journal identity changed or cursor fell below retained history"@,
    )
}

/// Checks that the journal still holds everything from the checkpoint on.
pub fn validate(
    saved: &WindowsCheckpoint,
    current_journal_identity: u64,
    current_lowest: i64,
) -> (r: PlatformResult<()>)
    ensures
        match r {
            Ok(()) => continues(saved@, current_journal_identity, current_lowest),
            Err(error) => !continues(saved@, current_journal_identity, current_lowest)
                && is_history_gap(error),
        },
{
    if saved.journal_identity != current_journal_identity || saved.next_position
        < current_lowest {
        return Err(
            PlatformError::new(
                PlatformErrorKind::SourceHistoryGap,
                "validate_checkpoint",
                "journal identity changed or cursor fell below retained history",
            ),
        );
    }
    Ok(())
}

/// The link that a renamed file waits with.
pub open spec fn renamed(renames: Seq<PendingRename>, reference: u64) -> Option<FileLinkId>
    decreases renames.len(),
{
    if renames.len() == 0 {
        None
    } else if renames[0].file_reference == reference {
        Some(renames[0].file_link_id)
    } else {
        renamed(renames.drop_first(), reference)
    }
}

/// The renames with one more, in its place or in the place of the one of the same file.
pub open spec fn with_rename(renames: Seq<PendingRename>, entry: PendingRename) -> Seq<
    PendingRename,
>
    decreases renames.len(),
{
    if renames.len() == 0 || renames[0].file_reference > entry.file_reference {
        seq![entry] + renames
    } else if renames[0].file_reference == entry.file_reference {
        seq![entry] + renames.drop_first()
    } else {
        seq![renames[0]] + with_rename(renames.drop_first(), entry)
    }
}

/// The renames without the one of a file.
pub open spec fn without_rename(renames: Seq<PendingRename>, reference: u64) -> Seq<PendingRename>
    decreases renames.len(),
{
    if renames.len() == 0 {
        renames
    } else if renames[0].file_reference == reference {
        renames.drop_first()
    } else {
        seq![renames[0]] + without_rename(renames.drop_first(), reference)
    }
}

/// The renames are in the order of their files, each file once.
pub open spec fn renames_sorted(renames: Seq<PendingRename>) -> bool {
    forall|i: int, j: int|
        0 <= i < j < renames.len() ==> (#[trigger] renames[i]).file_reference < (
        #[trigger] renames[j]).file_reference
}

proof fn lemma_with_rename_at(renames: Seq<PendingRename>, entry: PendingRename, at: int)
    requires
        0 <= at <= renames.len(),
        forall|i: int|
            0 <= i < at ==> (#[trigger] renames[i]).file_reference < entry.file_reference,
        at < renames.len() ==> renames[at].file_reference >= entry.file_reference,
    ensures
        with_rename(renames, entry) == (if at < renames.len() && renames[at].file_reference
            == entry.file_reference {
            renames.update(at, entry)
        } else {
            renames.insert(at, entry)
        }),
    decreases renames.len(),
{
    if at == 0 {
        if renames.len() > 0 && renames[0].file_reference == entry.file_reference {
            assert(renames.update(0, entry) =~= seq![entry] + renames.drop_first());
        } else {
            assert(renames.insert(0, entry) =~= seq![entry] + renames);
        }
    } else {
        let rest = renames.drop_first();
        assert(renames[0].file_reference < entry.file_reference);
        assert forall|i: int| 0 <= i < at - 1 implies (#[trigger] rest[i]).file_reference
            < entry.file_reference by {
            assert(rest[i] == renames[i + 1]);
        }
        lemma_with_rename_at(rest, entry, at - 1);
        if at < renames.len() && renames[at].file_reference == entry.file_reference {
            assert(renames.update(at, entry) =~= seq![renames[0]] + rest.update(at - 1, entry));
        } else {
            assert(renames.insert(at, entry) =~= seq![renames[0]] + rest.insert(at - 1, entry));
        }
    }
}

proof fn lemma_renamed_at(renames: Seq<PendingRename>, reference: u64, at: int)
    requires
        0 <= at <= renames.len(),
        forall|i: int| 0 <= i < at ==> (#[trigger] renames[i]).file_reference != reference,
        at < renames.len() ==> renames[at].file_reference == reference,
    ensures
        renamed(renames, reference) == (if at < renames.len() {
            Some(renames[at].file_link_id)
        } else {
            None
        }),
        without_rename(renames, reference) == (if at < renames.len() {
            renames.remove(at)
        } else {
            renames
        }),
    decreases renames.len(),
{
    if renames.len() == 0 {
    } else if at == 0 {
        assert(renames.remove(0) =~= renames.drop_first());
    } else {
        let rest = renames.drop_first();
        assert(renames[0].file_reference != reference);
        assert forall|i: int| 0 <= i < at - 1 implies (#[trigger] rest[i]).file_reference
            != reference by {
            assert(rest[i] == renames[i + 1]);
        }
        lemma_renamed_at(rest, reference, at - 1);
        if at < renames.len() {
            assert(renames.remove(at) =~= seq![renames[0]] + rest.remove(at - 1));
        } else {
            assert(renames =~= seq![renames[0]] + rest);
        }
    }
}

/// Notes that a file lost its name and which link that was.
pub fn remember_rename(
    saved: &mut WindowsCheckpoint,
    file_reference: u64,
    file_link_id: FileLinkId,
)
    ensures
        final(saved)@ == (JournalCursor {
            pending_renames: with_rename(
                old(saved)@.pending_renames,
                PendingRename { file_reference, file_link_id },
            ),
            ..old(saved)@
        }),
{
    let entry = PendingRename { file_reference, file_link_id };
    let mut at: usize = 0;
    while at < saved.pending_renames.len() && saved.pending_renames[at].file_reference
        < file_reference
        invariant
            at <= saved.pending_renames@.len(),
            forall|i: int|
                0 <= i < at ==> (#[trigger] saved.pending_renames@[i]).file_reference
                    < file_reference,
        decreases saved.pending_renames@.len() - at,
    {
        at = at + 1;
    }
    proof {
        lemma_with_rename_at(saved.pending_renames@, entry, at as int);
    }
    if at < saved.pending_renames.len() && saved.pending_renames[at].file_reference
        == file_reference {
        saved.pending_renames.set(at, entry);
    } else {
        saved.pending_renames.insert(at, entry);
    }
}

/// Takes the link that a renamed file waits with.
pub fn take_rename(saved: &mut WindowsCheckpoint, file_reference: u64) -> (r: Option<FileLinkId>)
    ensures
        r == renamed(old(saved)@.pending_renames, file_reference),
        final(saved)@ == (JournalCursor {
            pending_renames: without_rename(old(saved)@.pending_renames, file_reference),
            ..old(saved)@
        }),
{
    let mut at: usize = 0;
    while at < saved.pending_renames.len() && saved.pending_renames[at].file_reference
        != file_reference
        invariant
            at <= saved.pending_renames@.len(),
            forall|i: int|
                0 <= i < at ==> (#[trigger] saved.pending_renames@[i]).file_reference
                    != file_reference,
        decreases saved.pending_renames@.len() - at,
    {
        at = at + 1;
    }
    proof {
        lemma_renamed_at(saved.pending_renames@, file_reference, at as int);
    }
    if at < saved.pending_renames.len() {
        Some(saved.pending_renames.remove(at).file_link_id)
    } else {
        None
    }
}

/// A place comes before another: by directory, then by name.
pub open spec fn place_before(p: u64, a: Seq<char>, q: u64, b: Seq<char>) -> bool {
    p < q || (p == q && text_order(a, b) < 0)
}

/// The link known at a place.
pub open spec fn known(links: Seq<KnownLink>, parent: u64, name: Seq<char>) -> Option<FileLinkId>
    decreases links.len(),
{
    if links.len() == 0 {
        None
    } else if links[0].parent_reference == parent && links[0].name == name {
        Some(links[0].file_link_id)
    } else {
        known(links.drop_first(), parent, name)
    }
}

/// The known links with one more, in its place or in the place of the one that stood there.
pub open spec fn with_known(links: Seq<KnownLink>, entry: KnownLink) -> Seq<KnownLink>
    decreases links.len(),
{
    if links.len() == 0 || place_before(
        entry.parent_reference,
        entry.name,
        links[0].parent_reference,
        links[0].name,
    ) {
        seq![entry] + links
    } else if links[0].parent_reference == entry.parent_reference && links[0].name == entry.name {
        seq![entry] + links.drop_first()
    } else {
        seq![links[0]] + with_known(links.drop_first(), entry)
    }
}

/// The known links without the one at a place.
pub open spec fn without_known(links: Seq<KnownLink>, parent: u64, name: Seq<char>) -> Seq<
    KnownLink,
>
    decreases links.len(),
{
    if links.len() == 0 {
        links
    } else if links[0].parent_reference == parent && links[0].name == name {
        links.drop_first()
    } else {
        seq![links[0]] + without_known(links.drop_first(), parent, name)
    }
}

/// The known links are in the order of their places, each place once.
pub open spec fn known_sorted(links: Seq<KnownLink>) -> bool {
    forall|i: int, j: int|
        0 <= i < j < links.len() ==> place_before(
            (#[trigger] links[i]).parent_reference,
            links[i].name,
            (#[trigger] links[j]).parent_reference,
            links[j].name,
        )
}

proof fn lemma_known_at(links: Seq<KnownLink>, parent: u64, name: Seq<char>, at: int)
    requires
        0 <= at <= links.len(),
        forall|i: int|
            0 <= i < at ==> !((#[trigger] links[i]).parent_reference == parent && links[i].name
                == name),
        at < links.len() ==> links[at].parent_reference == parent && links[at].name == name,
    ensures
        known(links, parent, name) == (if at < links.len() {
            Some(links[at].file_link_id)
        } else {
            None
        }),
        without_known(links, parent, name) == (if at < links.len() {
            links.remove(at)
        } else {
            links
        }),
    decreases links.len(),
{
    if links.len() == 0 {
    } else if at == 0 {
        assert(links.remove(0) =~= links.drop_first());
    } else {
        let rest = links.drop_first();
        assert(!(links[0].parent_reference == parent && links[0].name == name));
        assert forall|i: int| 0 <= i < at - 1 implies !((#[trigger] rest[i]).parent_reference
            == parent && rest[i].name == name) by {
            assert(rest[i] == links[i + 1]);
        }
        lemma_known_at(rest, parent, name, at - 1);
        if at < links.len() {
            assert(links.remove(at) =~= seq![links[0]] + rest.remove(at - 1));
        } else {
            assert(links =~= seq![links[0]] + rest);
        }
    }
}

proof fn lemma_with_known_at(links: Seq<KnownLink>, entry: KnownLink, at: int)
    requires
        0 <= at <= links.len(),
        forall|i: int|
            0 <= i < at ==> place_before(
                (#[trigger] links[i]).parent_reference,
                links[i].name,
                entry.parent_reference,
                entry.name,
            ),
        at < links.len() ==> !place_before(
            links[at].parent_reference,
            links[at].name,
            entry.parent_reference,
            entry.name,
        ),
    ensures
        with_known(links, entry) == (if at < links.len() && links[at].parent_reference
            == entry.parent_reference && links[at].name == entry.name {
            links.update(at, entry)
        } else {
            links.insert(at, entry)
        }),
    decreases links.len(),
{
    if at < links.len() {
        lemma_text_order_equal(links[at].name, entry.name);
    }
    if at == 0 {
        if links.len() > 0 && links[0].parent_reference == entry.parent_reference && links[0].name
            == entry.name {
            assert(links.update(0, entry) =~= seq![entry] + links.drop_first());
        } else {
            assert(links.insert(0, entry) =~= seq![entry] + links);
        }
    } else {
        let rest = links.drop_first();
        assert(place_before(
            links[0].parent_reference,
            links[0].name,
            entry.parent_reference,
            entry.name,
        ));
        lemma_text_order_equal(links[0].name, entry.name);
        assert forall|i: int| 0 <= i < at - 1 implies place_before(
            (#[trigger] rest[i]).parent_reference,
            rest[i].name,
            entry.parent_reference,
            entry.name,
        ) by {
            assert(rest[i] == links[i + 1]);
        }
        lemma_with_known_at(rest, entry, at - 1);
        if at < links.len() && links[at].parent_reference == entry.parent_reference
            && links[at].name == entry.name {
            assert(links.update(at, entry) =~= seq![links[0]] + rest.update(at - 1, entry));
        } else {
            assert(links.insert(at, entry) =~= seq![links[0]] + rest.insert(at - 1, entry));
        }
    }
}

fn position_of(links: &Vec<KnownLinkIdentity>, parent_reference: u64, name: &str) -> (r: usize)
    ensures
        r <= links@.len(),
        forall|i: int|
            0 <= i < r ==> !((#[trigger] known_models(links@)[i]).parent_reference
                == parent_reference && known_models(links@)[i].name == name@),
        r < links@.len() ==> links@[r as int].parent_reference == parent_reference
            && links@[r as int].name@ == name@,
{
    let mut at: usize = 0;
    while at < links.len()
        invariant
            at <= links@.len(),
            forall|i: int|
                0 <= i < at ==> !((#[trigger] known_models(links@)[i]).parent_reference
                    == parent_reference && known_models(links@)[i].name == name@),
        decreases links@.len() - at,
    {
        if links[at].parent_reference == parent_reference && same_text(
            links[at].name.as_str(),
            name,
        ) {
            return at;
        }
        at = at + 1;
    }
    at
}

/// The link known at a place.
pub fn known_link_id(saved: &WindowsCheckpoint, parent_reference: u64, name: &str) -> (r: Option<
    FileLinkId,
>)
    ensures
        r == known(saved@.known_links, parent_reference, name@),
{
    let at: usize = position_of(&saved.known_links, parent_reference, name);
    proof {
        lemma_known_at(known_models(saved.known_links@), parent_reference, name@, at as int);
    }
    if at < saved.known_links.len() {
        Some(saved.known_links[at].file_link_id)
    } else {
        None
    }
}

/// Notes the link at a place.
pub fn remember_known_link(
    saved: &mut WindowsCheckpoint,
    parent_reference: u64,
    name: &str,
    file_link_id: FileLinkId,
)
    ensures
        final(saved)@ == (JournalCursor {
            known_links: with_known(
                old(saved)@.known_links,
                KnownLink { parent_reference, name: name@, file_link_id },
            ),
            ..old(saved)@
        }),
{
    let entry = KnownLinkIdentity { parent_reference, name: name.to_owned(), file_link_id };
    let ghost before = known_models(saved.known_links@);
    let mut at: usize = 0;
    let mut same = false;
    while at < saved.known_links.len()
        invariant_except_break
            at <= saved.known_links@.len(),
            before == known_models(saved.known_links@),
            !same,
            forall|i: int|
                0 <= i < at ==> place_before(
                    (#[trigger] before[i]).parent_reference,
                    before[i].name,
                    parent_reference,
                    name@,
                ),
        ensures
            at <= saved.known_links@.len(),
            before == known_models(saved.known_links@),
            forall|i: int|
                0 <= i < at ==> place_before(
                    (#[trigger] before[i]).parent_reference,
                    before[i].name,
                    parent_reference,
                    name@,
                ),
            at < before.len() ==> !place_before(
                before[at as int].parent_reference,
                before[at as int].name,
                parent_reference,
                name@,
            ),
            same == (at < before.len() && before[at as int].parent_reference == parent_reference
                && before[at as int].name == name@),
        decreases saved.known_links@.len() - at,
    {
        let other = &saved.known_links[at];
        assert(before[at as int] == other@);
        let order: i8 = compare_texts(other.name.as_str(), name);
        proof {
            lemma_text_order_equal(other.name@, name@);
        }
        if other.parent_reference < parent_reference || (other.parent_reference
            == parent_reference && order < 0) {
            at = at + 1;
        } else {
            same = other.parent_reference == parent_reference && order == 0;
            break;
        }
    }
    proof {
        lemma_with_known_at(before, entry@, at as int);
    }
    let ghost model = entry@;
    if same {
        saved.known_links.set(at, entry);
        assert(known_models(saved.known_links@) =~= before.update(at as int, model));
    } else {
        saved.known_links.insert(at, entry);
        assert(known_models(saved.known_links@) =~= before.insert(at as int, model));
    }
}

/// Forgets the link at a place.
pub fn forget_known_link(saved: &mut WindowsCheckpoint, parent_reference: u64, name: &str)
    ensures
        final(saved)@ == (JournalCursor {
            known_links: without_known(old(saved)@.known_links, parent_reference, name@),
            ..old(saved)@
        }),
{
    let ghost before = known_models(saved.known_links@);
    let at: usize = position_of(&saved.known_links, parent_reference, name);
    proof {
        lemma_known_at(before, parent_reference, name@, at as int);
    }
    if at < saved.known_links.len() {
        let _ = saved.known_links.remove(at);
        assert(known_models(saved.known_links@) =~= before.remove(at as int));
    }
}

/// The order of renames by file.
pub open spec fn rename_order() -> spec_fn(PendingRename, PendingRename) -> bool {
    |a: PendingRename, b: PendingRename| a.file_reference <= b.file_reference
}

/// The order of known links by place.
pub open spec fn known_order() -> spec_fn(KnownLink, KnownLink) -> bool {
    |a: KnownLink, b: KnownLink|
        !place_before(b.parent_reference, b.name, a.parent_reference, a.name)
}

fn sort_renames(renames: &Vec<PendingRename>) -> (r: Vec<PendingRename>)
    ensures
        r@ == ascending(renames@, rename_order()),
{
    let mut sorted: Vec<PendingRename> = Vec::new();
    let mut n: usize = 0;
    assert(renames@.take(0) =~= Seq::<PendingRename>::empty());
    while n < renames.len()
        invariant
            n <= renames@.len(),
            sorted@ == ascending(renames@.take(n as int), rename_order()),
        decreases renames@.len() - n,
    {
        let entry = renames[n];
        let mut at: usize = sorted.len();
        while at > 0 && sorted[at - 1].file_reference > entry.file_reference
            invariant
                at <= sorted@.len(),
                forall|i: int|
                    at <= i < sorted@.len() ==> !rename_order()(#[trigger] sorted@[i], entry),
            decreases at,
        {
            at = at - 1;
        }
        proof {
            lemma_placed_at(sorted@, entry, rename_order(), at as int);
            let next = renames@.take(n + 1);
            assert(next.drop_last() =~= renames@.take(n as int));
            assert(next.last() == entry);
        }
        sorted.insert(at, entry);
        n = n + 1;
    }
    assert(renames@.take(n as int) =~= renames@);
    sorted
}

fn is_place_before(a: &KnownLinkIdentity, b: &KnownLinkIdentity) -> (r: bool)
    ensures
        r == place_before(a@.parent_reference, a@.name, b@.parent_reference, b@.name),
{
    a.parent_reference < b.parent_reference || (a.parent_reference == b.parent_reference
        && compare_texts(a.name.as_str(), b.name.as_str()) < 0)
}

fn sort_known(links: Vec<KnownLinkIdentity>) -> (r: Vec<KnownLinkIdentity>)
    ensures
        known_models(r@) == ascending(known_models(links@), known_order()),
{
    let ghost all = known_models(links@);
    let mut sorted: Vec<KnownLinkIdentity> = Vec::new();
    assert(known_models(sorted@) =~= all.take(0));
    for link in iter: links
        invariant
            iter.seq() == links@,
            all == known_models(links@),
            known_models(sorted@) == ascending(all.take(iter.index()), known_order()),
    {
        let ghost models = known_models(sorted@);
        let mut at: usize = sorted.len();
        while at > 0 && is_place_before(&link, &sorted[at - 1])
            invariant
                at <= sorted@.len(),
                models == known_models(sorted@),
                forall|i: int|
                    at <= i < models.len() ==> !known_order()(#[trigger] models[i], link@),
            ensures
                at <= sorted@.len(),
                forall|i: int|
                    at <= i < models.len() ==> !known_order()(#[trigger] models[i], link@),
                at > 0 ==> known_order()(models[at - 1], link@),
            decreases at,
        {
            at = at - 1;
            assert(models[at as int] == sorted@[at as int]@);
        }
        proof {
            lemma_placed_at(models, link@, known_order(), at as int);
            let next = all.take(iter.index() + 1);
            assert(next.drop_last() =~= all.take(iter.index()));
            assert(next.last() == link@);
        }
        let ghost model = link@;
        sorted.insert(at, link);
        assert(known_models(sorted@) =~= models.insert(at as int, model));
    }
    assert(all.take(all.len() as int) =~= all);
    sorted
}

/// Puts the renames and known links of a checkpoint that was read in order.
pub fn restore_order(saved: WindowsCheckpoint) -> (r: WindowsCheckpoint)
    ensures
        r@ == (JournalCursor {
            pending_renames: ascending(saved@.pending_renames, rename_order()),
            known_links: ascending(saved@.known_links, known_order()),
            ..saved@
        }),
{
    let pending_renames = sort_renames(&saved.pending_renames);
    let known_links = sort_known(saved.known_links);
    WindowsCheckpoint {
        journal_identity: saved.journal_identity,
        next_position: saved.next_position,
        lowest_valid_position: saved.lowest_valid_position,
        snapshot_generation: saved.snapshot_generation,
        pending_events: saved.pending_events,
        pending_renames,
        known_links,
    }
}

/// Noting a rename keeps the renames in order.
pub proof fn remembering_keeps_renames_sorted(renames: Seq<PendingRename>, entry: PendingRename)
    requires
        renames_sorted(renames),
    ensures
        renames_sorted(with_rename(renames, entry)),
    decreases renames.len(),
{
    let after = with_rename(renames, entry);
    if renames.len() == 0 || renames[0].file_reference > entry.file_reference {
        assert forall|i: int, j: int| 0 <= i < j < after.len() implies (
        #[trigger] after[i]).file_reference < (#[trigger] after[j]).file_reference by {
            assert(after[j] == renames[j - 1]);
            if i > 0 {
                assert(after[i] == renames[i - 1]);
            } else if j > 1 {
                assert(renames[0].file_reference < renames[j - 1].file_reference);
            }
        }
    } else if renames[0].file_reference == entry.file_reference {
        assert forall|i: int, j: int| 0 <= i < j < after.len() implies (
        #[trigger] after[i]).file_reference < (#[trigger] after[j]).file_reference by {
            assert(after[j] == renames[j]);
            assert(after[i].file_reference == renames[i].file_reference);
        }
    } else {
        let rest = renames.drop_first();
        assert forall|i: int, j: int| 0 <= i < j < rest.len() implies (
        #[trigger] rest[i]).file_reference < (#[trigger] rest[j]).file_reference by {
            assert(rest[i] == renames[i + 1]);
            assert(rest[j] == renames[j + 1]);
        }
        remembering_keeps_renames_sorted(rest, entry);
        let tail = with_rename(rest, entry);
        lemma_rename_members(rest, entry);
        assert forall|i: int, j: int| 0 <= i < j < after.len() implies (
        #[trigger] after[i]).file_reference < (#[trigger] after[j]).file_reference by {
            assert(after[j] == tail[j - 1]);
            if i > 0 {
                assert(after[i] == tail[i - 1]);
            } else if tail[j - 1] != entry {
                let k = rest.index_of(tail[j - 1]);
                assert(rest[k] == renames[k + 1]);
            }
        }
    }
}

proof fn lemma_rename_members(renames: Seq<PendingRename>, entry: PendingRename)
    ensures
        forall|i: int|
            0 <= i < with_rename(renames, entry).len() ==> (#[trigger] with_rename(
                renames,
                entry,
            )[i] == entry || renames.contains(with_rename(renames, entry)[i])),
    decreases renames.len(),
{
    let after = with_rename(renames, entry);
    if renames.len() > 0 && renames[0].file_reference < entry.file_reference {
        lemma_rename_members(renames.drop_first(), entry);
    }
    assert forall|i: int| 0 <= i < after.len() implies (#[trigger] after[i] == entry
        || renames.contains(after[i])) by {
        if renames.len() == 0 || renames[0].file_reference > entry.file_reference {
            if i > 0 {
                assert(after[i] == renames[i - 1]);
            }
        } else if renames[0].file_reference == entry.file_reference {
            if i > 0 {
                assert(after[i] == renames[i]);
            }
        } else {
            let rest = renames.drop_first();
            let tail = with_rename(rest, entry);
            if i == 0 {
                assert(after[0] == renames[0]);
            } else {
                assert(after[i] == tail[i - 1]);
                if tail[i - 1] != entry {
                    let k = rest.index_of(tail[i - 1]);
                    assert(renames[k + 1] == after[i]);
                }
            }
        }
    }
}

proof fn lemma_place_before_transitive(
    p: u64,
    a: Seq<char>,
    q: u64,
    b: Seq<char>,
    r: u64,
    c: Seq<char>,
)
    requires
        place_before(p, a, q, b),
        place_before(q, b, r, c),
    ensures
        place_before(p, a, r, c),
{
    if p == q && q == r {
        lemma_text_order_transitive(a, b, c);
    }
}

/// Noting a link keeps the known links in order.
pub proof fn remembering_keeps_links_sorted(links: Seq<KnownLink>, entry: KnownLink)
    requires
        known_sorted(links),
    ensures
        known_sorted(with_known(links, entry)),
    decreases links.len(),
{
    let after = with_known(links, entry);
    let before = |a: KnownLink, b: KnownLink|
        place_before(a.parent_reference, a.name, b.parent_reference, b.name);
    if links.len() == 0 || before(entry, links[0]) {
        assert forall|i: int, j: int| 0 <= i < j < after.len() implies place_before(
            (#[trigger] after[i]).parent_reference,
            after[i].name,
            (#[trigger] after[j]).parent_reference,
            after[j].name,
        ) by {
            assert(after[j] == links[j - 1]);
            if i > 0 {
                assert(after[i] == links[i - 1]);
            } else if j > 1 {
                assert(before(links[0], links[j - 1]));
                lemma_place_before_transitive(
                    entry.parent_reference,
                    entry.name,
                    links[0].parent_reference,
                    links[0].name,
                    links[j - 1].parent_reference,
                    links[j - 1].name,
                );
            }
        }
    } else if links[0].parent_reference == entry.parent_reference && links[0].name == entry.name {
        assert forall|i: int, j: int| 0 <= i < j < after.len() implies place_before(
            (#[trigger] after[i]).parent_reference,
            after[i].name,
            (#[trigger] after[j]).parent_reference,
            after[j].name,
        ) by {
            assert(after[j] == links[j]);
            assert(before(links[i], links[j]));
        }
    } else {
        let rest = links.drop_first();
        lemma_text_order_equal(links[0].name, entry.name);
        assert(before(links[0], entry));
        assert forall|i: int, j: int| 0 <= i < j < rest.len() implies place_before(
            (#[trigger] rest[i]).parent_reference,
            rest[i].name,
            (#[trigger] rest[j]).parent_reference,
            rest[j].name,
        ) by {
            assert(rest[i] == links[i + 1]);
            assert(rest[j] == links[j + 1]);
        }
        remembering_keeps_links_sorted(rest, entry);
        let tail = with_known(rest, entry);
        lemma_known_members(rest, entry);
        assert forall|i: int, j: int| 0 <= i < j < after.len() implies place_before(
            (#[trigger] after[i]).parent_reference,
            after[i].name,
            (#[trigger] after[j]).parent_reference,
            after[j].name,
        ) by {
            assert(after[j] == tail[j - 1]);
            if i > 0 {
                assert(after[i] == tail[i - 1]);
            } else if tail[j - 1] != entry {
                let k = rest.index_of(tail[j - 1]);
                assert(rest[k] == links[k + 1]);
            }
        }
    }
}

proof fn lemma_known_members(links: Seq<KnownLink>, entry: KnownLink)
    ensures
        forall|i: int|
            0 <= i < with_known(links, entry).len() ==> (#[trigger] with_known(links, entry)[i]
                == entry || links.contains(with_known(links, entry)[i])),
    decreases links.len(),
{
    let after = with_known(links, entry);
    let first = links.len() == 0 || place_before(
        entry.parent_reference,
        entry.name,
        links[0].parent_reference,
        links[0].name,
    );
    let same = links.len() > 0 && links[0].parent_reference == entry.parent_reference
        && links[0].name == entry.name;
    if !first && !same {
        lemma_known_members(links.drop_first(), entry);
    }
    assert forall|i: int| 0 <= i < after.len() implies (#[trigger] after[i] == entry
        || links.contains(after[i])) by {
        if first {
            if i > 0 {
                assert(after[i] == links[i - 1]);
            }
        } else if same {
            if i > 0 {
                assert(after[i] == links[i]);
            }
        } else {
            let rest = links.drop_first();
            let tail = with_known(rest, entry);
            if i == 0 {
                assert(after[0] == links[0]);
            } else {
                assert(after[i] == tail[i - 1]);
                if tail[i - 1] != entry {
                    let k = rest.index_of(tail[i - 1]);
                    assert(links[k + 1] == after[i]);
                }
            }
        }
    }
}

/// A rename that was noted is found, and no other file is affected.
pub proof fn remembered_rename_is_found(
    renames: Seq<PendingRename>,
    entry: PendingRename,
    other: u64,
)
    ensures
        renamed(with_rename(renames, entry), entry.file_reference) == Some(entry.file_link_id),
        other != entry.file_reference ==> renamed(with_rename(renames, entry), other) == renamed(
            renames,
            other,
        ),
    decreases renames.len(),
{
    let after = with_rename(renames, entry);
    if renames.len() == 0 || renames[0].file_reference > entry.file_reference {
        assert(after.drop_first() =~= renames);
    } else if renames[0].file_reference == entry.file_reference {
        assert(after.drop_first() =~= renames.drop_first());
    } else {
        let rest = renames.drop_first();
        remembered_rename_is_found(rest, entry, other);
        assert(after.drop_first() =~= with_rename(rest, entry));
    }
}

/// A rename that was taken is gone, and no other file is affected.
pub proof fn taken_rename_is_gone(renames: Seq<PendingRename>, reference: u64, other: u64)
    requires
        renames_sorted(renames),
    ensures
        renamed(without_rename(renames, reference), reference) is None,
        other != reference ==> renamed(without_rename(renames, reference), other) == renamed(
            renames,
            other,
        ),
    decreases renames.len(),
{
    if renames.len() > 0 {
        let rest = renames.drop_first();
        assert forall|i: int, j: int| 0 <= i < j < rest.len() implies (
        #[trigger] rest[i]).file_reference < (#[trigger] rest[j]).file_reference by {
            assert(rest[i] == renames[i + 1]);
            assert(rest[j] == renames[j + 1]);
        }
        let after = without_rename(renames, reference);
        if renames[0].file_reference == reference {
            assert forall|i: int| 0 <= i < rest.len() implies (
            #[trigger] rest[i]).file_reference != reference by {
                assert(rest[i] == renames[i + 1]);
            }
            lemma_renamed_at(rest, reference, rest.len() as int);
        } else {
            taken_rename_is_gone(rest, reference, other);
            assert(after.drop_first() =~= without_rename(rest, reference));
        }
    }
}

/// A link that was noted is found at its place, and no other place is affected.
pub proof fn remembered_link_is_found(
    links: Seq<KnownLink>,
    entry: KnownLink,
    parent: u64,
    name: Seq<char>,
)
    ensures
        known(with_known(links, entry), entry.parent_reference, entry.name) == Some(
            entry.file_link_id,
        ),
        !(parent == entry.parent_reference && name == entry.name) ==> known(
            with_known(links, entry),
            parent,
            name,
        ) == known(links, parent, name),
    decreases links.len(),
{
    let after = with_known(links, entry);
    let first = links.len() == 0 || place_before(
        entry.parent_reference,
        entry.name,
        links[0].parent_reference,
        links[0].name,
    );
    if first {
        assert(after.drop_first() =~= links);
    } else if links[0].parent_reference == entry.parent_reference && links[0].name == entry.name {
        assert(after.drop_first() =~= links.drop_first());
    } else {
        remembered_link_is_found(links.drop_first(), entry, parent, name);
        assert(after.drop_first() =~= with_known(links.drop_first(), entry));
    }
}

/// A link that was forgotten is not found at its place, and no other place is affected.
pub proof fn forgotten_link_is_gone(
    links: Seq<KnownLink>,
    parent: u64,
    name: Seq<char>,
    other_parent: u64,
    other_name: Seq<char>,
)
    requires
        known_sorted(links),
    ensures
        known(without_known(links, parent, name), parent, name) is None,
        !(other_parent == parent && other_name == name) ==> known(
            without_known(links, parent, name),
            other_parent,
            other_name,
        ) == known(links, other_parent, other_name),
    decreases links.len(),
{
    if links.len() > 0 {
        let rest = links.drop_first();
        assert forall|i: int, j: int| 0 <= i < j < rest.len() implies place_before(
            (#[trigger] rest[i]).parent_reference,
            rest[i].name,
            (#[trigger] rest[j]).parent_reference,
            rest[j].name,
        ) by {
            assert(rest[i] == links[i + 1]);
            assert(rest[j] == links[j + 1]);
        }
        let after = without_known(links, parent, name);
        if links[0].parent_reference == parent && links[0].name == name {
            assert forall|i: int| 0 <= i < rest.len() implies !((
            #[trigger] rest[i]).parent_reference == parent && rest[i].name == name) by {
                assert(rest[i] == links[i + 1]);
                lemma_text_order_equal(links[0].name, links[i + 1].name);
            }
            lemma_known_at(rest, parent, name, rest.len() as int);
        } else {
            forgotten_link_is_gone(rest, parent, name, other_parent, other_name);
            assert(after.drop_first() =~= without_known(rest, parent, name));
        }
    }
}

} // verus!
