//! The controlled recall workload: names of every shape, and the queries that have to find them.

use vstd::prelude::*;

use crate::decimal::{
    decimal, decimal_denotes_the_number, is_digit, padded, padding_keeps_the_number, write_padded,
};
use crate::search::ranking::{occurs_at, CatalogRecord};
use crate::text::in_a_row;

verus! {

/// A labelled query of the workload.
#[derive(Clone, Debug, PartialEq, Eq)]
pub struct RecallCase {
    /// Identifier.
    pub id: &'static str,
    /// What the case covers.
    pub category: &'static str,
    /// Frequency of the query.
    pub frequency: &'static str,
    /// The query, not normalized.
    pub query: String,
}

/// A case as a mathematical value.
pub struct CaseModel {
    pub id: Seq<char>,
    pub category: Seq<char>,
    pub frequency: Seq<char>,
    pub query: Seq<char>,
}

impl View for RecallCase {
    type V = CaseModel;

    open spec fn view(&self) -> CaseModel {
        CaseModel {
            id: self.id@,
            category: self.category@,
            frequency: self.frequency@,
            query: self.query@,
        }
    }
}

impl RecallCase {
    /// A copy.
    pub fn duplicate(&self) -> (r: RecallCase)
        ensures
            r@ == self@,
    {
        RecallCase {
            id: self.id,
            category: self.category,
            frequency: self.frequency,
            query: self.query.clone(),
        }
    }
}

/// The views of several cases.
pub open spec fn case_models(cases: Seq<RecallCase>) -> Seq<CaseModel> {
    Seq::new(cases.len(), |i: int| cases[i]@)
}

/// A name with the query that has to find it.
struct Shape {
    id: &'static str,
    category: &'static str,
    name: &'static str,
    query: &'static str,
}

/// A shape as a mathematical value.
pub struct ShapeModel {
    pub id: Seq<char>,
    pub category: Seq<char>,
    pub name: Seq<char>,
    pub query: Seq<char>,
}

impl View for Shape {
    type V = ShapeModel;

    closed spec fn view(&self) -> ShapeModel {
        ShapeModel {
            id: self.id@,
            category: self.category@,
            name: self.name@,
            query: self.query@,
        }
    }
}

pub open spec fn shape_of(id: Seq<char>, category: Seq<char>, name: Seq<char>, query: Seq<char>) ->
    ShapeModel {
    ShapeModel { id, category, name, query }
}

/// The names of which each has one distinguishing query.
pub open spec fn shape_models() -> Seq<ShapeModel> {
    seq![
        shape_of(
            "beginning"@,
            "position_beginning"@,
            "ZetaStartMarker-document.txt"@,
            "zetastart"@,
        ),
        shape_of("middle"@, "position_middle"@, "prefix-MidNeedle-suffix.txt"@, "midneedle"@),
        shape_of("end"@, "position_end"@, "archive-FinalMarker"@, "finalmarker"@),
        shape_of("space"@, "separator_space"@, "budget Qzv Report 2026.txt"@, "qzv report"@),
        shape_of(
            "underscore"@,
            "separator_underscore"@,
            "under_QzvScore_Marker.txt"@,
            "qzvscore_mar"@,
        ),
        shape_of("dash"@, "separator_dash"@, "dash-QzvSegment-Marker.txt"@, "qzvsegment-mar"@),
        shape_of("dot"@, "separator_dot"@, "release.qzvnotes.final"@, "qzvnotes.fin"@),
        shape_of(
            "parentheses"@,
            "separator_parentheses"@,
            "draft (QzvApproved) copy.txt"@,
            "(qzvapproved)"@,
        ),
        shape_of("digits"@, "digits"@, "invoice-QZV60814-final.txt"@, "qzv60814"@),
        shape_of("repeated"@, "repeated_sequence"@, "qzvabababab-target.txt"@, "ababab"@),
        shape_of("latin"@, "script_latin"@, "RareQzvLatinNeedle.txt"@, "qzvlatin"@),
        shape_of("cyrillic"@, "script_cyrillic"@, "Проект_КюзОтчёт_Финал.txt"@, "кюзотчёт"@),
        shape_of("case"@, "case_normalization"@, "QzV-MiXeDCaSeMarker.txt"@, "qzv-mixedcase"@),
        shape_of(
            "nfc"@,
            "unicode_nfc_query"@,
            "Qzv-Cafe\u{301}-Resume\u{301}.txt"@,
            "qzv-café"@,
        ),
        shape_of("nfd"@, "unicode_nfd_query"@, "Qzv-Café-Résumé.txt"@, "qzv-cafe\u{301}"@),
        shape_of("three_char"@, "minimum_length"@, "prefixaqv7bsuffix.txt"@, "qv7"@),
    ]
}

fn shape(
    id: &'static str,
    category: &'static str,
    name: &'static str,
    query: &'static str,
) -> (r: Shape)
    ensures
        r@ == shape_of(id@, category@, name@, query@),
{
    Shape { id, category, name, query }
}

fn shapes() -> (r: Vec<Shape>)
    ensures
        r@.len() == 16,
        forall|i: int| 0 <= i < 16 ==> (#[trigger] r@[i])@ == shape_models()[i],
{
    vec![
        shape("beginning", "position_beginning", "ZetaStartMarker-document.txt", "zetastart"),
        shape("middle", "position_middle", "prefix-MidNeedle-suffix.txt", "midneedle"),
        shape("end", "position_end", "archive-FinalMarker", "finalmarker"),
        shape("space", "separator_space", "budget Qzv Report 2026.txt", "qzv report"),
        shape("underscore", "separator_underscore", "under_QzvScore_Marker.txt", "qzvscore_mar"),
        shape("dash", "separator_dash", "dash-QzvSegment-Marker.txt", "qzvsegment-mar"),
        shape("dot", "separator_dot", "release.qzvnotes.final", "qzvnotes.fin"),
        shape(
            "parentheses",
            "separator_parentheses",
            "draft (QzvApproved) copy.txt",
            "(qzvapproved)",
        ),
        shape("digits", "digits", "invoice-QZV60814-final.txt", "qzv60814"),
        shape("repeated", "repeated_sequence", "qzvabababab-target.txt", "ababab"),
        shape("latin", "script_latin", "RareQzvLatinNeedle.txt", "qzvlatin"),
        shape("cyrillic", "script_cyrillic", "Проект_КюзОтчёт_Финал.txt", "кюзотчёт"),
        shape("case", "case_normalization", "QzV-MiXeDCaSeMarker.txt", "qzv-mixedcase"),
        shape("nfc", "unicode_nfc_query", "Qzv-Cafe\u{301}-Resume\u{301}.txt", "qzv-café"),
        shape("nfd", "unicode_nfd_query", "Qzv-Café-Résumé.txt", "qzv-cafe\u{301}"),
        shape("three_char", "minimum_length", "prefixaqv7bsuffix.txt", "qv7"),
    ]
}

/// One character many times.
pub open spec fn repeated(c: char, n: nat) -> Seq<char> {
    Seq::new(n, |i: int| c)
}

fn repeat_char(c: char, n: usize) -> (r: String)
    ensures
        r@ == repeated(c, n as nat),
{
    let mut r = String::new();
    let mut i: usize = 0;
    while i < n
        invariant
            i <= n,
            r@ =~= repeated(c, i as nat),
        decreases n - i,
    {
        r.push(c);
        i = i + 1;
    }
    r
}

/// A long name with a marker in the middle.
pub open spec fn long_name() -> Seq<char> {
    repeated('a', 96) + "qzv-long-middle-marker"@ + repeated('b', 96) + ".txt"@
}

/// A name that holds the common query.
pub open spec fn common_name(i: nat) -> Seq<char> {
    "common-"@ + padded(i, 3) + "-qzvcommon-document.txt"@
}

/// A name that holds every trigram of the pressure query, but not the query.
pub open spec fn collision_name(i: nat) -> Seq<char> {
    "collision-"@ + padded(i, 4) + "-qxz|xzm|zma|mar|ark|rke|ker.txt"@
}

/// Names that hold the common query.
pub const COMMON_NAMES: usize = 250;

/// Every name of the workload, in order.
pub open spec fn workload_names(pressure: nat) -> Seq<Seq<char>> {
    Seq::new(16, |i: int| shape_models()[i].name) + seq![long_name()] + Seq::new(
        COMMON_NAMES as nat,
        |i: int| common_name(i as nat),
    ) + Seq::new(pressure, |i: int| collision_name(i as nat)) + seq![
        "target-qxzmarker-after-collisions.txt"@,
    ]
}

/// Every case of the workload, in order.
pub open spec fn workload_cases() -> Seq<CaseModel> {
    Seq::new(
        16,
        |i: int|
            CaseModel {
                id: shape_models()[i].id,
                category: shape_models()[i].category,
                frequency: "rare"@,
                query: shape_models()[i].query,
            },
    ) + seq![
        CaseModel {
            id: "long_name"@,
            category: "long_name"@,
            frequency: "rare"@,
            query: "qzv-long-middle-marker"@,
        },
        CaseModel {
            id: "common_within_budget"@,
            category: "frequency_common"@,
            frequency: "common"@,
            query: "qzvcommon"@,
        },
        CaseModel {
            id: "candidate_pressure"@,
            category: "candidate_limit_pressure"@,
            frequency: "worst_case"@,
            query: "qxzmarker"@,
        },
    ]
}

/// A record of the workload.
pub open spec fn is_controlled(record: CatalogRecord, ordinal: int, name: Seq<char>) -> bool {
    &&& record.ordinal == ordinal
    &&& record.name@ == name
    &&& record.path@ == "/controlled/"@ + name
    &&& record.extension@ == "txt"@
    &&& record.size == 1
    &&& record.modified_at_unix_ms == 0
}

fn controlled_record(ordinal: u64, name: String) -> (r: CatalogRecord)
    ensures
        is_controlled(r, ordinal as int, name@),
{
    let mut path = "/controlled/".to_owned();
    path.append(name.as_str());
    CatalogRecord {
        ordinal,
        path,
        name,
        extension: "txt".to_owned(),
        size: 1,
        modified_at_unix_ms: 0,
    }
}

/// The records are those of the names, with successive ordinals.
pub open spec fn are_controlled(records: Seq<CatalogRecord>, first: int, names: Seq<Seq<char>>) ->
    bool {
    &&& records.len() <= names.len()
    &&& forall|i: int|
        0 <= i < records.len() ==> is_controlled(#[trigger] records[i], first + i, names[i])
}

fn push_controlled(
    records: &mut Vec<CatalogRecord>,
    first_ordinal: u64,
    name: String,
    Ghost(names): Ghost<Seq<Seq<char>>>,
)
    requires
        are_controlled(old(records)@, first_ordinal as int, names),
        old(records)@.len() < names.len(),
        names[old(records)@.len() as int] == name@,
        first_ordinal + old(records)@.len() <= u64::MAX,
    ensures
        are_controlled(final(records)@, first_ordinal as int, names),
        final(records)@.len() == old(records)@.len() + 1,
{
    let ordinal: u64 = first_ordinal + records.len() as u64;
    records.push(controlled_record(ordinal, name));
}

fn push_case(
    cases: &mut Vec<RecallCase>,
    id: &'static str,
    category: &'static str,
    frequency: &'static str,
    query: &str,
)
    ensures
        case_models(final(cases)@) == case_models(old(cases)@).push(
            (CaseModel { id: id@, category: category@, frequency: frequency@, query: query@ }),
        ),
{
    cases.push(RecallCase { id, category, frequency, query: query.to_owned() });
    assert(case_models(cases@) =~= case_models(old(cases)@).push(
        CaseModel { id: id@, category: category@, frequency: frequency@, query: query@ },
    ));
}

/// Makes the records and cases of the workload. The records are numbered from `first_ordinal`.
pub fn controlled_recall_workload(first_ordinal: u64, pressure_false_candidates: usize) -> (r: (
    Vec<CatalogRecord>,
    Vec<RecallCase>,
))
    requires
        first_ordinal + 267 + pressure_false_candidates <= u64::MAX,
    ensures
        r.0@.len() == 268 + pressure_false_candidates,
        are_controlled(
            r.0@,
            first_ordinal as int,
            workload_names(pressure_false_candidates as nat),
        ),
        case_models(r.1@) == workload_cases(),
{
    let ghost names = workload_names(pressure_false_candidates as nat);
    let definitions = shapes();
    let mut records: Vec<CatalogRecord> = Vec::new();
    let mut cases: Vec<RecallCase> = Vec::new();
    let mut i: usize = 0;
    while i < 16
        invariant
            i <= 16,
            first_ordinal + 267 + pressure_false_candidates <= u64::MAX,
            names == workload_names(pressure_false_candidates as nat),
            definitions@.len() == 16,
            forall|k: int| 0 <= k < 16 ==> (#[trigger] definitions@[k])@ == shape_models()[k],
            records@.len() == i,
            are_controlled(records@, first_ordinal as int, names),
            case_models(cases@) =~= workload_cases().take(i as int),
        decreases 16 - i,
    {
        let definition = &definitions[i];
        assert(definition@ == shape_models()[i as int]);
        assert(names[i as int] == definition.name@);
        push_controlled(&mut records, first_ordinal, definition.name.to_owned(), Ghost(names));
        push_case(&mut cases, definition.id, definition.category, "rare", definition.query);
        i = i + 1;
        assert(case_models(cases@) =~= workload_cases().take(i as int));
    }
    let long = in_a_row(
        repeat_char('a', 96).as_str(),
        "qzv-long-middle-marker",
        repeat_char('b', 96).as_str(),
    );
    let mut long = long;
    long.append(".txt");
    push_controlled(&mut records, first_ordinal, long, Ghost(names));
    push_case(&mut cases, "long_name", "long_name", "rare", "qzv-long-middle-marker");
    i = 0;
    while i < COMMON_NAMES
        invariant
            i <= COMMON_NAMES,
            first_ordinal + 267 + pressure_false_candidates <= u64::MAX,
            names == workload_names(pressure_false_candidates as nat),
            records@.len() == 17 + i,
            are_controlled(records@, first_ordinal as int, names),
        decreases COMMON_NAMES - i,
    {
        let name = in_a_row(
            "common-",
            write_padded(i as u64, 3).as_str(),
            "-qzvcommon-document.txt",
        );
        assert(names[17 + i] == common_name(i as nat));
        push_controlled(&mut records, first_ordinal, name, Ghost(names));
        i = i + 1;
    }
    push_case(&mut cases, "common_within_budget", "frequency_common", "common", "qzvcommon");
    i = 0;
    while i < pressure_false_candidates
        invariant
            i <= pressure_false_candidates,
            first_ordinal + 267 + pressure_false_candidates <= u64::MAX,
            names == workload_names(pressure_false_candidates as nat),
            records@.len() == 267 + i,
            are_controlled(records@, first_ordinal as int, names),
        decreases pressure_false_candidates - i,
    {
        let name = in_a_row(
            "collision-",
            write_padded(i as u64, 4).as_str(),
            "-qxz|xzm|zma|mar|ark|rke|ker.txt",
        );
        assert(names[267 + i] == collision_name(i as nat));
        push_controlled(&mut records, first_ordinal, name, Ghost(names));
        i = i + 1;
    }
    assert(names[267 + i] == "target-qxzmarker-after-collisions.txt"@);
    push_controlled(
        &mut records,
        first_ordinal,
        "target-qxzmarker-after-collisions.txt".to_owned(),
        Ghost(names),
    );
    push_case(
        &mut cases,
        "candidate_pressure",
        "candidate_limit_pressure",
        "worst_case",
        "qxzmarker",
    );
    assert(case_models(cases@) =~= workload_cases());
    (records, cases)
}

/// A name that only looks like a match holds every three letters in a row of the query, but never
/// the query itself.
pub proof fn collisions_hold_the_grams_alone(i: nat, at: int, k: int)
    ensures
        !occurs_at(collision_name(i), "qxzmarker"@, at),
        0 <= k <= 6 ==> exists|j: int| #[trigger]
            occurs_at(collision_name(i), "qxzmarker"@.subrange(k, k + 3), j),
{
    reveal_strlit("qxzmarker");
    reveal_strlit("collision-");
    reveal_strlit("-qxz|xzm|zma|mar|ark|rke|ker.txt");
    padding_keeps_the_number(i, 4);
    decimal_denotes_the_number(i);
    let query = "qxzmarker"@;
    let back = "-qxz|xzm|zma|mar|ark|rke|ker.txt"@;
    let name = collision_name(i);
    let front = ("collision-"@ + padded(i, 4)).len() as int;
    assert forall|j: int| 0 <= j < back.len() implies name[front + j] == #[trigger] back[j] by {}
    if occurs_at(name, query, at) {
        assert(name[at] == name.subrange(at, at + 9)[0]);
        assert(name[at + 3] == name.subrange(at, at + 9)[3]);
        assert(query[0] == 'q' && query[3] == 'm');
        lemma_padded_digits(i, 4);
        if at < front {
            if at >= 10 {
                assert(name[at] == padded(i, 4)[at - 10]);
            } else {
                assert(name[at] == "collision-"@[at]);
            }
            assert(false);
        }
        assert(name[at] == back[at - front]);
        assert(at == front + 1);
        assert(name[at + 3] == back[4]);
        assert(false);
    }
    if 0 <= k <= 6 {
        let j = front + 1 + 4 * k;
        assert(name[j] == back[1 + 4 * k] && name[j + 1] == back[2 + 4 * k] && name[j + 2] == back[3
            + 4 * k]);
        let gram = query.subrange(k, k + 3);
        assert(name.subrange(j, j + 3) =~= gram);
        assert(occurs_at(name, gram, j));
    }
}

proof fn lemma_padded_digits(n: nat, width: nat)
    ensures
        forall|k: int| 0 <= k < padded(n, width).len() ==> is_digit(#[trigger] padded(n, width)[k]),
{
    decimal_denotes_the_number(n);
    let plain = decimal(n);
    let all = padded(n, width);
    assert forall|k: int| 0 <= k < all.len() implies is_digit(#[trigger] all[k]) by {
        if plain.len() < width && k >= width - plain.len() {
            assert(all[k] == plain[k - (width - plain.len())]);
        } else if plain.len() >= width {
            assert(all[k] == plain[k]);
        }
    }
}

/// Every name that is meant to hold the common query holds it, and each is written differently.
pub proof fn common_names_hold_the_query(i: nat, other: nat)
    ensures
        exists|at: int| #[trigger] occurs_at(common_name(i), "qzvcommon"@, at),
        common_name(i) == common_name(other) ==> i == other,
{
    reveal_strlit("qzvcommon");
    reveal_strlit("-qzvcommon-document.txt");
    let front = ("common-"@ + padded(i, 3)).len() as int;
    let back = "-qzvcommon-document.txt"@;
    assert(common_name(i).subrange(front + 1, front + 10) =~= back.subrange(1, 10));
    assert(back.subrange(1, 10) =~= "qzvcommon"@);
    assert(occurs_at(common_name(i), "qzvcommon"@, front + 1));
    if common_name(i) == common_name(other) {
        padding_keeps_the_number(i, 3);
        padding_keeps_the_number(other, 3);
        let n = "common-"@.len() as int;
        let (x, y) = (padded(i, 3), padded(other, 3));
        assert(common_name(i).len() == common_name(other).len());
        assert(x =~= common_name(i).subrange(n, n + x.len()));
        assert(y =~= common_name(other).subrange(n, n + y.len()));
    }
}

} // verus!
