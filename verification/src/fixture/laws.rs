//! What the command line, the names and the measurements of the fixture stand for.

use vstd::prelude::*;

use crate::catalog::{CatalogDocument, DocumentModel};
use crate::decimal::{padded, padding_keeps_the_number, parsed};
use crate::fixture::session::{is_clean, next_names};
use crate::fixture::{
    backlog, churn_of, churn_text, comparable, is_current, is_fixture_document, is_fixture_root,
    is_only_document, is_removable, is_within, operation_named, option_value, paired, recorded,
    same_but_for_case, step_after, without_slashes, ChurnMetrics, FixtureDocument, FixtureError, PumpOutcome, PumpProgress, PumpStep, FIXTURE_PREFIX,
};
use crate::graph::model::GraphModel;
use crate::graph::upkeep_model::desired_document;
use crate::ids::DocumentId;
use crate::search::ranking::occurs_at;
use crate::text::{characters_are_replaced_in_place, replaced};
use crate::windows::scan::ascii_lowered;

verus! {

/// An option has the first value that is given for its name, and none where it is not named.
pub proof fn the_first_value_counts(options: Seq<(Seq<char>, Seq<char>)>, name: Seq<char>, at: int)
    requires
        0 <= at < options.len(),
        options[at].0 == name,
        forall|i: int| 0 <= i < at ==> (#[trigger] options[i]).0 != name,
    ensures
        option_value(options, name) == Some(options[at].1),
        option_value(options.take(at), name) is None,
    decreases at,
{
    lemma_unnamed(options.take(at), name);
    if at > 0 {
        assert(options[0].0 != name);
        let rest = options.drop_first();
        assert(rest[at - 1] == options[at]);
        assert forall|i: int| 0 <= i < at - 1 implies (#[trigger] rest[i]).0 != name by {
            assert(rest[i] == options[i + 1]);
        }
        the_first_value_counts(rest, name, at - 1);
    }
}

proof fn lemma_unnamed(options: Seq<(Seq<char>, Seq<char>)>, name: Seq<char>)
    requires
        forall|i: int| 0 <= i < options.len() ==> (#[trigger] options[i]).0 != name,
    ensures
        option_value(options, name) is None,
    decreases options.len(),
{
    if options.len() > 0 {
        let rest = options.drop_first();
        assert forall|i: int| 0 <= i < rest.len() implies (#[trigger] rest[i]).0 != name by {
            assert(rest[i] == options[i + 1]);
        }
        lemma_unnamed(rest, name);
    }
}

/// A name and a value that are given last stand last among the options.
pub proof fn names_and_values_alternate(
    arguments: Seq<Seq<char>>,
    name: Seq<char>,
    value: Seq<char>,
)
    requires
        arguments.len() % 2 == 0,
    ensures
        paired(arguments + seq![name, value]) == paired(arguments).push((name, value)),
        paired(Seq::empty()) == Seq::<(Seq<char>, Seq<char>)>::empty(),
{
    let whole = arguments + seq![name, value];
    let half = (arguments.len() / 2) as int;
    assert(whole.len() / 2 == half + 1);
    assert(whole[2 * half] == name);
    assert(whole[2 * half + 1] == value);
    assert(paired(whole) =~= paired(arguments).push((name, value)));
    assert(paired(Seq::empty()) =~= Seq::<(Seq<char>, Seq<char>)>::empty());
}

/// A churn is asked for as its options say, and never out of bounds. What is not said takes its
/// usual value, and options within the bounds are accepted.
pub proof fn churns_are_asked_for_within_bounds(options: Seq<(Seq<char>, Seq<char>)>)
    ensures
        churn_of(options) matches Ok(churn) ==> {
            &&& 60 <= churn.duration_seconds <= 1_800
            &&& 1 <= churn.batch_files <= 256
            &&& 50 <= churn.cycle_interval_millis <= 5_000
            &&& (option_value(options, "--duration-seconds"@) matches Some(text) && parsed(
                text,
                u64::MAX as nat,
            ) == Some(churn.duration_seconds as nat))
            &&& (option_value(options, "--batch-files"@) matches Some(text) && parsed(
                text,
                u64::MAX as nat,
            ) == Some(churn.batch_files as nat))
            &&& (option_value(options, "--cycle-interval-milliseconds"@) matches Some(text)
                ==> parsed(text, u64::MAX as nat) == Some(churn.cycle_interval_millis as nat))
            &&& (option_value(options, "--cycle-interval-milliseconds"@) is None
                ==> churn.cycle_interval_millis == 250)
            &&& (churn.agent_owns_projection <==> option_value(options, "--projection-owner"@)
                == Some("agent"@))
        },
        ({
            &&& option_value(options, "--duration-seconds"@) matches Some(duration)
            &&& parsed(duration, u64::MAX as nat) matches Some(seconds)
            &&& 60 <= seconds <= 1_800
            &&& option_value(options, "--batch-files"@) matches Some(batch)
            &&& parsed(batch, u64::MAX as nat) matches Some(files)
            &&& 1 <= files <= 256
            &&& option_value(options, "--cycle-interval-milliseconds"@) is None
            &&& option_value(options, "--projection-owner"@) is None
        }) ==> churn_of(options) is Ok,
{
}

/// Where nothing overflows, the counts of a churn are sums, and the order in which outcomes are
/// recorded does not matter.
pub proof fn outcomes_add_up(m: ChurnMetrics, first: PumpOutcome, second: PumpOutcome)
    ensures
        recorded(recorded(m, first), second) == recorded(recorded(m, second), first),
        m.provider_events + first.emitted_events <= u64::MAX ==> recorded(m, first).provider_events
            == m.provider_events + first.emitted_events,
        m.projection_mutations + first.applied_mutations <= u64::MAX ==> recorded(
            m,
            first,
        ).projection_mutations == m.projection_mutations + first.applied_mutations,
        m.projection_runs < u64::MAX ==> recorded(m, first).projection_runs - m.projection_runs == (
        if first.projection_run {
            1int
        } else {
            0int
        }),
        ({
            let most = recorded(m, first).maximum_backlog_mutations;
            most == m.maximum_backlog_mutations || most == first.backlog_before_projection
        }),
        ({
            let longest = recorded(m, first).maximum_projection_micros;
            longest == m.maximum_projection_micros || longest == first.projection_micros
        }),
{
}

proof fn lemma_same_middle(front: Seq<char>, x: Seq<char>, y: Seq<char>, back: Seq<char>)
    requires
        front + x + back == front + y + back,
    ensures
        x == y,
{
    let whole = front + x + back;
    assert(whole.len() == (front + y + back).len());
    assert(x =~= whole.subrange(front.len() as int, front.len() as int + x.len()));
    assert(y =~= (front + y + back).subrange(front.len() as int, front.len() as int + y.len()));
}

/// Files of a churn that have different numbers have different names.
pub proof fn churn_files_have_names_of_their_own(a: u64, b: u64)
    requires
        churn_text(a) == churn_text(b),
    ensures
        a == b,
{
    lemma_same_middle(
        "architecture-churn-"@,
        padded(a as nat, 12),
        padded(b as nat, 12),
        ".md"@,
    );
    padding_keeps_the_number(a as nat, 12);
    padding_keeps_the_number(b as nat, 12);
}

/// What was applied and what waits are all that there is; nothing waits where more was applied.
pub proof fn what_waits_was_not_applied(latest: u64, applied: u64)
    ensures
        applied <= latest ==> backlog(latest, applied) + applied == latest,
        applied > latest ==> backlog(latest, applied) == 0,
{
}

proof fn lemma_without_slashes(text: Seq<char>)
    ensures
        without_slashes(text).len() <= text.len(),
        without_slashes(text) == text.take(without_slashes(text).len() as int),
        without_slashes(text).len() > 0 ==> without_slashes(text).last() != '/',
        forall|i: int| without_slashes(text).len() <= i < text.len() ==> #[trigger] text[i] == '/',
    decreases text.len(),
{
    if text.len() > 0 && text.last() == '/' {
        lemma_without_slashes(text.drop_last());
        let kept = without_slashes(text.drop_last());
        assert(kept =~= text.take(kept.len() as int));
        assert forall|i: int| kept.len() <= i < text.len() implies #[trigger] text[i] == '/' by {
            if i < text.len() - 1 {
                assert(text.drop_last()[i] == text[i]);
            }
        }
    } else {
        assert(text =~= text.take(text.len() as int));
    }
}

/// Paths are compared without regard to the kind of their separators and to separators at their
/// end. No other character is lost.
pub proof fn paths_are_compared_without_their_last_separators(path: Seq<char>)
    ensures
        ({
            let kept = comparable(path);
            &&& kept.len() <= path.len()
            &&& kept.len() > 0 ==> kept.last() != '/'
            &&& forall|i: int|
                0 <= i < kept.len() ==> #[trigger] kept[i] == (if path[i] == '\\' {
                    '/'
                } else {
                    path[i]
                })
            &&& forall|i: int|
                kept.len() <= i < path.len() ==> #[trigger] path[i] == '\\' || path[i] == '/'
        }),
        comparable(path.push('\\')) == comparable(path),
        comparable(path.push('/')) == comparable(path),
{
    reveal_strlit("/");
    assert("/"@ =~= seq!['/']);
    characters_are_replaced_in_place(path, '\\', '/');
    let slashed = replaced(path, '\\', "/"@);
    lemma_without_slashes(slashed);
    let kept = comparable(path);
    assert forall|i: int| kept.len() <= i < path.len() implies #[trigger] path[i] == '\\' || path[i]
        == '/' by {
        assert(slashed[i] == '/');
    }
    assert(path.push('\\').drop_last() =~= path);
    assert(path.push('/').drop_last() =~= path);
    assert(replaced(path.push('\\'), '\\', "/"@).drop_last() =~= slashed);
    assert(replaced(path.push('/'), '\\', "/"@).drop_last() =~= slashed);
}

/// What lies below a root lies within it, and what lies within what is within lies within.
pub proof fn paths_below_a_root_are_within(
    root: Seq<char>,
    middle: Seq<char>,
    below: Seq<char>,
    name: char,
)
    ensures
        is_within(root, root),
        comparable(root) == root && name != '\\' && name != '/' ==> is_within(
            root,
            root + seq!['/', name],
        ) && is_within(root, root + seq!['\\', name]) && !is_within(root + seq!['/', name], root),
        is_within(root, middle) && is_within(middle, below) ==> is_within(root, below),
{
    reveal_strlit("/");
    assert("/"@ =~= seq!['/']);
    if comparable(root) == root && name != '\\' && name != '/' {
        paths_are_compared_without_their_last_separators(root);
        let (x, y) = (root + seq!['/', name], root + seq!['\\', name]);
        characters_are_replaced_in_place(x, '\\', '/');
        characters_are_replaced_in_place(y, '\\', '/');
        assert(replaced(x, '\\', "/"@) =~= x);
        assert(replaced(y, '\\', "/"@) =~= x);
        assert(comparable(x) == x);
        assert(comparable(y) == x);
        assert(occurs_at(x, root, 0)) by {
            assert(x.subrange(0, root.len() as int) =~= root);
        }
    }
    if is_within(root, middle) && is_within(middle, below) {
        let (a, b, c) = (comparable(root), comparable(middle), comparable(below));
        if a != b && b != c {
            assert(a =~= b.subrange(0, a.len() as int));
            assert(b =~= c.subrange(0, b.len() as int));
            assert(c.subrange(0, a.len() as int) =~= a);
            assert(c[a.len() as int] == b[a.len() as int]);
        }
    }
}

/// Reading stops only when nothing more is there, or when it was tried as often as it may be; it
/// stops as enough only if enough was seen or the time is over, and waits only where nothing more
/// is there.
pub proof fn reading_goes_on_until_enough(p: PumpProgress, has_more: bool, elapsed_ns: u128)
    requires
        p.passes <= 128,
    ensures
        ({
            let step = step_after(p, has_more, elapsed_ns);
            &&& has_more && p.passes < 128 ==> step == PumpStep::Continue
            &&& has_more ==> step != PumpStep::Drained && step != PumpStep::Wait
            &&& step == PumpStep::Drained ==> p.emitted >= p.minimum_events || elapsed_ns
                >= 5_000_000_000
            &&& !has_more && p.emitted >= p.minimum_events ==> step == PumpStep::Drained
            &&& !has_more && elapsed_ns >= 5_000_000_000 ==> step == PumpStep::Drained
            &&& step == PumpStep::Exhausted ==> p.passes == 128
            &&& p.passes == 128 ==> step == PumpStep::Drained || step == PumpStep::Exhausted
        }),
{
}

/// A document that is accepted after a file was renamed or moved is the same object under the same
/// link, at the expected path but for the kind of its separators, and is told as it is.
pub proof fn identities_survive_renames(
    r: Result<FixtureDocument, FixtureError>,
    document: Option<DocumentModel>,
    stale: FixtureDocument,
    expected_path: Seq<char>,
)
    requires
        is_current(r, document, stale, expected_path),
    ensures
        r matches Ok(current) ==> {
            &&& current.object_key == stale.object_key
            &&& current.file_link_id == stale.file_link_id
            &&& comparable(current.path@) == comparable(expected_path)
            &&& document matches Some(found)
            &&& current.document_id == found.identity.document_id
            &&& current.name@ == found.name
            &&& current.path@ == found.resolved_path
        },
        document is None ==> r is Err,
        document matches Some(found) ==> (found.identity.object_key == stale.object_key
            && found.identity.file_link_id == stale.file_link_id && found.resolved_path
            == expected_path ==> r is Ok),
{
}

/// Only a directory of the fixture right below the root of the volume may be removed.
pub proof fn only_directories_of_the_fixture_are_removed(
    volume: Seq<char>,
    parent: Seq<char>,
    name: Seq<char>,
)
    ensures
        is_removable(volume, Some(parent), Some(name)) ==> comparable(parent) == comparable(volume)
            && FIXTURE_PREFIX@.is_prefix_of(name),
        is_removable(volume, Some(volume), Some(FIXTURE_PREFIX@ + name)),
        !is_removable(volume, None, Some(name)),
        !is_removable(volume, Some(parent), None),
{
    let whole = FIXTURE_PREFIX@ + name;
    assert(whole.subrange(0, FIXTURE_PREFIX@.len() as int) =~= FIXTURE_PREFIX@);
    assert(occurs_at(whole, FIXTURE_PREFIX@, 0));
    if is_removable(volume, Some(parent), Some(name)) {
        assert(name.subrange(0, FIXTURE_PREFIX@.len() as int) =~= FIXTURE_PREFIX@);
    }
}

/// Where nothing of a directory is left, nothing of what lies in it is left either.
pub proof fn clean_directories_hold_nothing(m: GraphModel, root: Seq<char>, below: Seq<char>)
    requires
        is_clean(m, root),
        is_within(root, below),
    ensures
        is_clean(m, below),
{
    assert forall|id: DocumentId| #[trigger] m.documents.dom().contains(id) implies !is_within(
        below,
        desired_document(m, id).resolved_path,
    ) by {
        paths_below_a_root_are_within(root, below, desired_document(m, id).resolved_path, 'x');
    }
}

/// The files of a cycle have names of their own, which none of an earlier cycle has.
pub proof fn cycles_make_new_files(sequence: u64, n: nat, i: int, j: int, earlier: u64)
    requires
        0 <= i < j < n,
        sequence + n <= u64::MAX,
        earlier <= sequence,
    ensures
        next_names(sequence, n).len() == n,
        next_names(sequence, n)[i] != next_names(sequence, n)[j],
        next_names(sequence, n)[i] != churn_text(earlier),
{
    let (a, b) = ((sequence + i + 1) as u64, (sequence + j + 1) as u64);
    assert(next_names(sequence, n)[i] == churn_text(a));
    assert(next_names(sequence, n)[j] == churn_text(b));
    if churn_text(a) == churn_text(b) {
        churn_files_have_names_of_their_own(a, b);
    }
    if churn_text(a) == churn_text(earlier) {
        churn_files_have_names_of_their_own(a, earlier);
    }
}

/// Each operation has one name, and no other text names it.
pub proof fn operations_have_one_name(a: Seq<char>, b: Seq<char>)
    ensures
        operation_named(a) is Some && operation_named(a) == operation_named(b) ==> a == b,
{
}

/// The case of letters does not matter for mounts, anything else does: the comparison holds for a
/// text and itself, both ways round, and never for texts of different lengths.
pub proof fn mounts_are_compared_without_case(a: Seq<char>, b: Seq<char>, i: int)
    ensures
        same_but_for_case(a, a),
        same_but_for_case(a, b) <==> same_but_for_case(b, a),
        a.len() != b.len() ==> !same_but_for_case(a, b),
        same_but_for_case(a, b) && 0 <= i < a.len() ==> ascii_lowered(a[i]) == ascii_lowered(b[i]),
        same_but_for_case(a, b) && 0 <= i < a.len() && !('A' <= a[i] <= 'Z') && !('A' <= b[i]
            <= 'Z') ==> a[i] == b[i],
        a.len() == b.len() && (forall|k: int|
            0 <= k < a.len() ==> ascii_lowered(#[trigger] a[k]) == ascii_lowered(b[k]))
            ==> same_but_for_case(a, b),
{
    if same_but_for_case(a, b) {
        assert forall|k: int| 0 <= k < b.len() implies ascii_lowered(#[trigger] b[k])
            == ascii_lowered(a[k]) by {
            assert(ascii_lowered(a[k]) == ascii_lowered(b[k]));
        }
    }
    if same_but_for_case(b, a) {
        assert forall|k: int| 0 <= k < a.len() implies ascii_lowered(#[trigger] a[k])
            == ascii_lowered(b[k]) by {
            assert(ascii_lowered(b[k]) == ascii_lowered(a[k]));
        }
    }
}

/// A fixture root is a letter, a colon and a separator of either kind; the system drive is none in
/// either case, and nothing may follow.
pub proof fn the_system_drive_is_no_fixture(letter: char, more: char)
    ensures
        !is_fixture_root(seq!['c', ':', '\\']) && !is_fixture_root(seq!['C', ':', '\\']),
        !is_fixture_root(seq!['c', ':', '/']) && !is_fixture_root(seq!['C', ':', '/']),
        is_fixture_root(seq![letter, ':', '\\']) <==> is_fixture_root(seq![letter, ':', '/']),
        is_fixture_root(seq![letter, ':', '\\']) <==> (0x41 <= letter as u32 <= 0x5a || 0x61
            <= letter as u32 <= 0x7a) && letter != 'c' && letter != 'C',
        !is_fixture_root(seq![letter, ':']),
        !is_fixture_root(seq![letter, ':', '\\', more]),
        more != ':' ==> !is_fixture_root(seq![letter, more, '\\']),
        more != '\\' && more != '/' ==> !is_fixture_root(seq![letter, ':', more]),
{
}

/// Among documents of which one alone has the name and lies below the root, that one is found, and
/// at most one can be.
pub proof fn only_documents_are_unique(
    documents: Seq<CatalogDocument>,
    i: int,
    j: int,
    root: Seq<char>,
    name: Seq<char>,
)
    requires
        is_only_document(documents, i, root, name),
        is_only_document(documents, j, root, name),
    ensures
        i == j,
        documents[i]@.name == name,
        is_within(root, documents[i]@.resolved_path),
        forall|k: int|
            0 <= k < documents.len() && k != i ==> (#[trigger] documents[k])@.name != name
                || !is_within(root, documents[k]@.resolved_path),
{
    assert(is_fixture_document(documents[i]@, root, name));
    assert forall|k: int| 0 <= k < documents.len() && k != i implies (
    #[trigger] documents[k])@.name != name || !is_within(root, documents[k]@.resolved_path) by {
        assert(!is_fixture_document(documents[k]@, root, name));
    }
}

} // verus!
