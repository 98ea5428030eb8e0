//! What is stored for a record, which queries are put to the index, and which candidates are
//! verified.

use vstd::prelude::*;
use vstd::utf8::encode_utf8;

use crate::search::normalize::{normalize_search_text, normalized, tokenize, tokens};
use crate::search::policy::QueryPlan;
use crate::search::ranking::{
    contains_text, entry_of, hits_are_exactly_the_substring_matches, matching, occurs,
    CatalogRecord,
};
use crate::text::{chars_of, join_with, joined, texts};

verus! {

/// How candidates are found.
#[derive(Clone, Copy, Debug, PartialEq, Eq, Structural)]
pub enum Strategy {
    /// All overlapping name trigrams.
    Trigram,
    /// Exact names, tokens and prefixes first, then trigrams up to the limit.
    TokenPrefixLimitedTrigram,
    /// Fourgrams; shorter queries use exact names, tokens and prefixes.
    BoundedFourgram,
}

/// The label of a strategy.
pub open spec fn strategy_label(strategy: Strategy) -> Seq<char> {
    match strategy {
        Strategy::Trigram => "trigram"@,
        Strategy::TokenPrefixLimitedTrigram => "token_prefix_limited_trigram"@,
        Strategy::BoundedFourgram => "bounded_fourgram"@,
    }
}

/// Characters of a gram.
pub open spec fn width_of(strategy: Strategy) -> nat {
    match strategy {
        Strategy::BoundedFourgram => 4,
        _ => 3,
    }
}

impl Strategy {
    /// The label used in reports.
    pub fn label(self) -> (r: &'static str)
        ensures
            r@ == strategy_label(self),
    {
        match self {
            Strategy::Trigram => "trigram",
            Strategy::TokenPrefixLimitedTrigram => "token_prefix_limited_trigram",
            Strategy::BoundedFourgram => "bounded_fourgram",
        }
    }

    /// Characters of a gram.
    pub fn gram_width(self) -> (r: usize)
        ensures
            r == width_of(self),
    {
        match self {
            Strategy::BoundedFourgram => 4,
            _ => 3,
        }
    }

    /// Every strategy, in the order in which they are compared.
    pub fn all() -> (r: Vec<Strategy>)
        ensures
            r@ == seq![
                Strategy::Trigram,
                Strategy::TokenPrefixLimitedTrigram,
                Strategy::BoundedFourgram,
            ],
    {
        vec![Strategy::Trigram, Strategy::TokenPrefixLimitedTrigram, Strategy::BoundedFourgram]
    }
}

/// The prefixes of a text, shortest first, up to a length.
pub open spec fn prefixes_of(text: Seq<char>, maximum_length: nat) -> Seq<Seq<char>> {
    Seq::new(
        if text.len() < maximum_length {
            text.len()
        } else {
            maximum_length
        },
        |i: int| text.take(i + 1),
    )
}

/// The hexadecimal digit of a number below sixteen.
pub open spec fn hex_digit(n: u8) -> char {
    if n < 10 {
        ('0' as u32 + n) as char
    } else {
        ('a' as u32 + (n - 10)) as char
    }
}

/// The hexadecimal notation of bytes, two digits each.
pub open spec fn hex(bytes: Seq<u8>) -> Seq<char> {
    Seq::new(
        2 * bytes.len(),
        |k: int|
            if k % 2 == 0 {
                hex_digit(bytes[k / 2] / 16)
            } else {
                hex_digit(bytes[k / 2] % 16)
            },
    )
}

/// The overlapping grams of a text, each as the hexadecimal notation of its UTF-8 bytes.
pub open spec fn grams_of(text: Seq<char>, width: nat) -> Seq<Seq<char>> {
    if text.len() < width {
        Seq::empty()
    } else {
        Seq::new(
            (text.len() - width + 1) as nat,
            |i: int| hex(encode_utf8(text.subrange(i, i + width))),
        )
    }
}

fn copy_range(chars: &Vec<char>, from: usize, to: usize) -> (r: String)
    requires
        from <= to <= chars@.len(),
    ensures
        r@ == chars@.subrange(from as int, to as int),
{
    let mut r = String::new();
    let mut i: usize = from;
    while i < to
        invariant
            from <= i <= to <= chars@.len(),
            r@ =~= chars@.subrange(from as int, i as int),
        decreases to - i,
    {
        r.push(chars[i]);
        i = i + 1;
    }
    r
}

/// The prefixes of a text, shortest first.
pub fn prefixes(value: &str, maximum_length: usize) -> (r: Vec<String>)
    ensures
        texts(r@) == prefixes_of(value@, maximum_length as nat),
{
    let characters = chars_of(value);
    let end: usize = if characters.len() < maximum_length {
        characters.len()
    } else {
        maximum_length
    };
    let mut r: Vec<String> = Vec::new();
    let mut length: usize = 0;
    while length < end
        invariant
            length <= end <= characters@.len(),
            characters@ == value@,
            r@.len() == length,
            forall|i: int| 0 <= i < length ==> (#[trigger] r@[i])@ == value@.take(i + 1),
        decreases end - length,
    {
        length = length + 1;
        let text = copy_range(&characters, 0, length);
        assert(text@ =~= value@.take(length as int));
        r.push(text);
    }
    assert(texts(r@) =~= prefixes_of(value@, maximum_length as nat));
    r
}

fn hex_char(n: u8) -> (c: char)
    requires
        n < 16,
    ensures
        c == hex_digit(n),
{
    match n {
        0 => '0',
        1 => '1',
        2 => '2',
        3 => '3',
        4 => '4',
        5 => '5',
        6 => '6',
        7 => '7',
        8 => '8',
        9 => '9',
        10 => 'a',
        11 => 'b',
        12 => 'c',
        13 => 'd',
        14 => 'e',
        _ => 'f',
    }
}

/// Writes bytes in hexadecimal.
pub fn hex_text(bytes: &[u8]) -> (r: String)
    ensures
        r@ == hex(bytes@),
{
    let mut r = String::new();
    let mut i: usize = 0;
    while i < bytes.len()
        invariant
            i <= bytes@.len(),
            r@ =~= hex(bytes@.take(i as int)),
        decreases bytes@.len() - i,
    {
        let ghost before = r@;
        r.push(hex_char(bytes[i] / 16));
        r.push(hex_char(bytes[i] % 16));
        i = i + 1;
        proof {
            let next = hex(bytes@.take(i as int));
            assert forall|k: int| 0 <= k < next.len() implies r@[k] == #[trigger] next[k] by {
                if k < before.len() {
                    assert(before[k] == hex(bytes@.take(i - 1))[k]);
                    assert(bytes@.take(i as int)[k / 2] == bytes@.take(i - 1)[k / 2]);
                }
            }
        }
    }
    assert(bytes@.take(i as int) =~= bytes@);
    r
}

/// The overlapping grams of a text.
pub fn grams(value: &str, width: usize) -> (r: Vec<String>)
    requires
        width > 0,
    ensures
        texts(r@) == grams_of(value@, width as nat),
{
    let characters = chars_of(value);
    let mut r: Vec<String> = Vec::new();
    if characters.len() < width {
        assert(texts(r@) =~= Seq::empty());
        return r;
    }
    let last: usize = characters.len() - width;
    let mut i: usize = 0;
    assert(characters.len() <= usize::MAX);
    while i <= last
        invariant
            width > 0,
            characters@.len() <= usize::MAX,
            last + width == characters@.len(),
            characters@ == value@,
            i <= last + 1,
            r@.len() == i,
            forall|k: int|
                0 <= k < i ==> (#[trigger] r@[k])@ == hex(
                    encode_utf8(value@.subrange(k, k + width)),
                ),
        decreases last + 1 - i,
    {
        let literal = copy_range(&characters, i, i + width);
        r.push(hex_text(literal.as_str().as_bytes()));
        i = i + 1;
    }
    assert(texts(r@) =~= grams_of(value@, width as nat));
    r
}

/// The texts that the index holds for a name.
pub struct IndexText {
    /// The normalized name.
    pub exact: String,
    /// Its tokens.
    pub token: String,
    /// Its prefixes.
    pub prefix: String,
    /// Its grams.
    pub gram: String,
}

/// The longest indexed prefix.
pub const PREFIX_LENGTH: usize = 16;

/// The texts that the index holds for a normalized name.
pub open spec fn is_index_text(r: IndexText, name: Seq<char>, strategy: Strategy) -> bool {
    &&& r.exact@ == name
    &&& r.token@ == joined(tokens(name), ' ')
    &&& r.prefix@ == joined(prefixes_of(name, PREFIX_LENGTH as nat), ' ')
    &&& r.gram@ == joined(grams_of(name, width_of(strategy)), ' ')
}

/// The texts that the index holds for a name that is normalized already.
pub fn index_normalized(name: String, strategy: Strategy) -> (r: IndexText)
    ensures
        is_index_text(r, name@, strategy),
{
    let token = join_with(&tokenize(name.as_str()), ' ');
    let prefix = join_with(&prefixes(name.as_str(), PREFIX_LENGTH), ' ');
    let gram = join_with(&grams(name.as_str(), strategy.gram_width()), ' ');
    IndexText { exact: name, token, prefix, gram }
}

/// The texts that the index holds for a name.
pub fn index_text(name: &str, strategy: Strategy) -> (r: IndexText)
    ensures
        is_index_text(r, normalized(name@), strategy),
{
    index_normalized(normalize_search_text(name), strategy)
}

/// A field of the index.
#[derive(Clone, Copy, Debug, PartialEq, Eq, Structural)]
pub enum IndexField {
    /// Normalized names.
    Exact,
    /// Tokens.
    Token,
    /// Prefixes.
    Prefix,
    /// Grams.
    Gram,
}

/// A query to the index.
#[derive(Clone, Debug, PartialEq, Eq)]
pub enum IndexQuery {
    /// The text is a term of at least one of the fields.
    AnyField {
        /// The fields.
        fields: Vec<IndexField>,
        /// The text.
        text: String,
    },
    /// The text is a term of the field.
    Term {
        /// The field.
        field: IndexField,
        /// The text.
        text: String,
    },
    /// The texts are terms of the field at successive positions.
    Phrase {
        /// The field.
        field: IndexField,
        /// The texts.
        texts: Vec<String>,
    },
}

/// A query as a mathematical value.
pub enum QueryModel {
    AnyField { fields: Seq<IndexField>, text: Seq<char> },
    Term { field: IndexField, text: Seq<char> },
    Phrase { field: IndexField, texts: Seq<Seq<char>> },
}

impl View for IndexQuery {
    type V = QueryModel;

    open spec fn view(&self) -> QueryModel {
        match self {
            IndexQuery::AnyField { fields, text } => QueryModel::AnyField {
                fields: fields@,
                text: text@,
            },
            IndexQuery::Term { field, text } => QueryModel::Term { field: *field, text: text@ },
            IndexQuery::Phrase { field, texts: parts } => QueryModel::Phrase {
                field: *field,
                texts: texts(parts@),
            },
        }
    }
}

/// The query for names, tokens and prefixes that are the text.
pub open spec fn lexical(text: Seq<char>) -> QueryModel {
    QueryModel::AnyField {
        fields: seq![IndexField::Exact, IndexField::Token, IndexField::Prefix],
        text,
    }
}

/// The query for names whose grams hold those of the text in order.
pub open spec fn positional(text: Seq<char>, width: nat) -> QueryModel {
    let parts = grams_of(text, width);
    if parts.len() == 1 {
        QueryModel::Term { field: IndexField::Gram, text: parts[0] }
    } else {
        QueryModel::Phrase { field: IndexField::Gram, texts: parts }
    }
}

/// The query for names, tokens and prefixes that are the text.
pub fn lexical_query(query: &str) -> (r: IndexQuery)
    ensures
        r@ == lexical(query@),
{
    let fields = vec![IndexField::Exact, IndexField::Token, IndexField::Prefix];
    assert(fields@ =~= seq![IndexField::Exact, IndexField::Token, IndexField::Prefix]);
    IndexQuery::AnyField { fields, text: query.to_owned() }
}

/// The query for names whose grams hold those of the text in order.
pub fn gram_query(query: &str, width: usize) -> (r: IndexQuery)
    requires
        0 < width <= query@.len(),
    ensures
        r@ == positional(query@, width as nat),
{
    let parts = grams(query, width);
    if parts.len() == 1 {
        let ghost all = texts(parts@);
        assert(all[0] == parts@[0]@);
        let text = parts[0].clone();
        IndexQuery::Term { field: IndexField::Gram, text }
    } else {
        IndexQuery::Phrase { field: IndexField::Gram, texts: parts }
    }
}

/// Where the index keeps a document.
#[derive(Clone, Copy, Debug, PartialEq, Eq, Structural)]
pub struct DocumentAddress {
    /// Segment.
    pub segment: u32,
    /// Document in the segment.
    pub document: u32,
}

/// What is put to the index next.
#[derive(Clone, Copy, Debug, PartialEq, Eq, Structural)]
pub enum RetrievalStage {
    /// Names, tokens and prefixes.
    Lexical,
    /// Grams.
    Grams,
    /// Nothing.
    Done,
}

/// The retrieval of the candidates of one query.
pub struct Retrieval {
    strategy: Strategy,
    query: String,
    allow_ngram: bool,
    limit: usize,
    stage: RetrievalStage,
    found: Vec<DocumentAddress>,
}

/// A retrieval as a mathematical value.
pub struct RetrievalModel {
    pub strategy: Strategy,
    pub query: Seq<char>,
    pub allow_ngram: bool,
    pub limit: nat,
    pub stage: RetrievalStage,
    pub found: Seq<DocumentAddress>,
}

/// What is put to the index first: grams where they may be used and the query is long enough
/// for one, but names, tokens and prefixes first where the strategy limits grams.
pub open spec fn first_stage(strategy: Strategy, allow_ngram: bool, length: nat) -> RetrievalStage {
    if strategy != Strategy::TokenPrefixLimitedTrigram && allow_ngram && length >= width_of(
        strategy,
    ) {
        RetrievalStage::Grams
    } else {
        RetrievalStage::Lexical
    }
}

/// The retrieval of a plan before anything was asked.
pub open spec fn begun(strategy: Strategy, plan: QueryPlan) -> RetrievalModel {
    RetrievalModel {
        strategy,
        query: plan.normalized_query@,
        allow_ngram: plan.allow_ngram,
        limit: plan.candidate_limit as nat,
        stage: first_stage(strategy, plan.allow_ngram, plan.normalized_query@.len()),
        found: Seq::empty(),
    }
}

/// The query that is put to the index next, with the number of candidates asked for.
pub open spec fn request(m: RetrievalModel) -> Option<(QueryModel, nat)> {
    if m.found.len() >= m.limit {
        None
    } else {
        match m.stage {
            RetrievalStage::Lexical => Some((lexical(m.query), (m.limit - m.found.len()) as nat)),
            RetrievalStage::Grams => Some(
                (positional(m.query, width_of(m.strategy)), (m.limit - m.found.len()) as nat),
            ),
            RetrievalStage::Done => None,
        }
    }
}

/// The addresses with the first `n` answers that are new, in order.
pub open spec fn extended(found: Seq<DocumentAddress>, answer: Seq<DocumentAddress>, n: nat) -> Seq<
    DocumentAddress,
>
    decreases n,
{
    if n == 0 {
        found
    } else {
        let before = extended(found, answer, (n - 1) as nat);
        if before.contains(answer[n - 1]) {
            before
        } else {
            before.push(answer[n - 1])
        }
    }
}

/// The retrieval after the index answered.
pub open spec fn answered(m: RetrievalModel, answer: Seq<DocumentAddress>) -> RetrievalModel {
    let found = extended(m.found, answer, answer.len());
    let stage = if m.stage == RetrievalStage::Lexical && m.strategy
        == Strategy::TokenPrefixLimitedTrigram && m.allow_ngram && found.len() < m.limit {
        RetrievalStage::Grams
    } else {
        RetrievalStage::Done
    };
    RetrievalModel { stage, found, ..m }
}

/// The candidates: the addresses found, up to the limit.
pub open spec fn candidates(m: RetrievalModel) -> Seq<DocumentAddress> {
    if m.found.len() > m.limit {
        m.found.take(m.limit as int)
    } else {
        m.found
    }
}

proof fn lemma_extended_distinct(
    found: Seq<DocumentAddress>,
    answer: Seq<DocumentAddress>,
    n: nat,
)
    requires
        found.no_duplicates(),
        n <= answer.len(),
    ensures
        extended(found, answer, n).no_duplicates(),
        extended(found, answer, n).len() <= found.len() + n,
    decreases n,
{
    if n > 0 {
        lemma_extended_distinct(found, answer, (n - 1) as nat);
        let before = extended(found, answer, (n - 1) as nat);
        let x = answer[n - 1];
        if !before.contains(x) {
            let after = before.push(x);
            assert forall|i: int, j: int| 0 <= i < j < after.len() implies after[i] != after[j] by {
                if j == before.len() {
                    assert(before.contains(before[i]));
                }
            }
        }
    }
}

/// Candidates are never more than the limit and never repeat, whatever the index answers.
pub proof fn candidates_are_bounded_and_distinct(
    m: RetrievalModel,
    answer: Seq<DocumentAddress>,
)
    requires
        m.found.no_duplicates(),
    ensures
        answered(m, answer).found.no_duplicates(),
        candidates(answered(m, answer)).len() <= m.limit,
        candidates(answered(m, answer)).no_duplicates(),
{
    lemma_extended_distinct(m.found, answer, answer.len());
    let found = answered(m, answer).found;
    let kept = candidates(answered(m, answer));
    assert forall|i: int, j: int| 0 <= i < j < kept.len() implies kept[i] != kept[j] by {
        assert(kept[i] == found[i]);
        assert(kept[j] == found[j]);
    }
}

/// An index that answers with no more than it was asked for never exceeds the limit, so that no
/// answer is cut off.
pub proof fn bounded_answers_are_kept(m: RetrievalModel, answer: Seq<DocumentAddress>)
    requires
        m.found.no_duplicates(),
        request(m) matches Some(r) && answer.len() <= r.1,
    ensures
        candidates(answered(m, answer)) == answered(m, answer).found,
{
    lemma_extended_distinct(m.found, answer, answer.len());
}

fn holds(found: &Vec<DocumentAddress>, address: DocumentAddress) -> (r: bool)
    ensures
        r == found@.contains(address),
{
    let mut i: usize = 0;
    while i < found.len()
        invariant
            i <= found@.len(),
            forall|k: int| 0 <= k < i ==> found@[k] != address,
        decreases found@.len() - i,
    {
        if found[i] == address {
            assert(found@[i as int] == address);
            return true;
        }
        i = i + 1;
    }
    false
}

impl Retrieval {
    /// The retrieval as a mathematical value.
    pub closed spec fn view(&self) -> RetrievalModel {
        RetrievalModel {
            strategy: self.strategy,
            query: self.query@,
            allow_ngram: self.allow_ngram,
            limit: self.limit as nat,
            stage: self.stage,
            found: self.found@,
        }
    }

    /// Nothing was found twice, and grams are asked for only where the query has one.
    pub closed spec fn wf(&self) -> bool {
        &&& self.found@.no_duplicates()
        &&& self.stage == RetrievalStage::Grams ==> self.query@.len() >= width_of(self.strategy)
        &&& self.allow_ngram ==> self.query@.len() >= 3
    }

    /// Begins the retrieval of a plan.
    pub fn begin(strategy: Strategy, plan: &QueryPlan) -> (r: Retrieval)
        requires
            plan.allow_ngram ==> plan.normalized_query@.len() >= 3,
        ensures
            r.wf(),
            r@ == begun(strategy, *plan),
    {
        let length: usize = chars_of(plan.normalized_query.as_str()).len();
        let stage = if strategy != Strategy::TokenPrefixLimitedTrigram && plan.allow_ngram && length
            >= strategy.gram_width() {
            RetrievalStage::Grams
        } else {
            RetrievalStage::Lexical
        };
        Retrieval {
            strategy,
            query: plan.normalized_query.clone(),
            allow_ngram: plan.allow_ngram,
            limit: plan.candidate_limit,
            stage,
            found: Vec::new(),
        }
    }

    /// The query to put to the index, with the number of candidates to ask for; none once the
    /// retrieval is complete.
    pub fn next_request(&self) -> (r: Option<(IndexQuery, usize)>)
        requires
            self.wf(),
        ensures
            match r {
                Some((query, limit)) => request(self@) == Some((query@, limit as nat)),
                None => request(self@) is None,
            },
    {
        if self.found.len() >= self.limit {
            return None;
        }
        let remaining: usize = self.limit - self.found.len();
        match self.stage {
            RetrievalStage::Lexical => Some((lexical_query(self.query.as_str()), remaining)),
            RetrievalStage::Grams => Some(
                (gram_query(self.query.as_str(), self.strategy.gram_width()), remaining),
            ),
            RetrievalStage::Done => None,
        }
    }

    /// Takes the answer of the index.
    pub fn record(&mut self, answer: Vec<DocumentAddress>)
        requires
            old(self).wf(),
        ensures
            final(self).wf(),
            final(self)@ == answered(old(self)@, answer@),
    {
        let mut i: usize = 0;
        while i < answer.len()
            invariant
                i <= answer@.len(),
                self.found@ == extended(old(self).found@, answer@, i as nat),
                self.strategy == old(self).strategy,
                self.query == old(self).query,
                self.allow_ngram == old(self).allow_ngram,
                self.limit == old(self).limit,
                self.stage == old(self).stage,
            decreases answer@.len() - i,
        {
            if !holds(&self.found, answer[i]) {
                self.found.push(answer[i]);
            }
            i = i + 1;
        }
        proof {
            lemma_extended_distinct(old(self).found@, answer@, answer@.len());
        }
        self.stage = if self.stage == RetrievalStage::Lexical && self.strategy
            == Strategy::TokenPrefixLimitedTrigram && self.allow_ngram && self.found.len()
            < self.limit {
            RetrievalStage::Grams
        } else {
            RetrievalStage::Done
        };
    }

    /// The candidates that were found, at most as many as the limit, none twice.
    pub fn finish(self) -> (r: Vec<DocumentAddress>)
        requires
            self.wf(),
        ensures
            r@ == candidates(self@),
            r@.len() <= self@.limit,
            r@.no_duplicates(),
    {
        let mut found = self.found;
        if found.len() > self.limit {
            found.truncate(self.limit);
        }
        found
    }
}

/// A record whose normalized name or path contains the query.
pub open spec fn is_verified(record: CatalogRecord, query: Seq<char>) -> bool {
    occurs(normalized(record.name@), query) || occurs(normalized(record.path@), query)
}

/// The first `n` candidates that contain the query, in their order.
pub open spec fn verified(all: Seq<CatalogRecord>, query: Seq<char>, n: nat) -> Seq<CatalogRecord>
    decreases n,
{
    if n == 0 {
        Seq::empty()
    } else {
        let before = verified(all, query, (n - 1) as nat);
        if is_verified(all[n - 1], query) {
            before.push(all[n - 1])
        } else {
            before
        }
    }
}

/// Keeps the candidates that contain the query.
pub fn verify_candidates(all: Vec<CatalogRecord>, normalized_query: &str) -> (r: Vec<CatalogRecord>)
    ensures
        r@ == verified(all@, normalized_query@, all@.len()),
{
    let mut kept: Vec<CatalogRecord> = Vec::new();
    for record in iter: all
        invariant
            iter.seq() == all@,
            kept@ == verified(all@, normalized_query@, iter.index() as nat),
    {
        let name = normalize_search_text(record.name.as_str());
        let path = normalize_search_text(record.path.as_str());
        if contains_text(name.as_str(), normalized_query) || contains_text(
            path.as_str(),
            normalized_query,
        ) {
            kept.push(record);
        }
    }
    kept
}

proof fn lemma_matching_extends(all: Seq<CatalogRecord>, longer: Seq<CatalogRecord>, query: Seq<char>, n: nat)
    requires
        n <= all.len(),
        n <= longer.len(),
        forall|i: int| 0 <= i < n ==> all[i] == longer[i],
    ensures
        matching(all, query, n) == matching(longer, query, n),
    decreases n,
{
    if n > 0 {
        lemma_matching_extends(all, longer, query, (n - 1) as nat);
    }
}

/// Verification drops exactly what ranking would drop: the hits are the same with and without
/// it, and every verified candidate is a hit.
pub proof fn verification_keeps_every_hit(all: Seq<CatalogRecord>, query: Seq<char>, n: nat)
    requires
        n <= all.len(),
    ensures
        ({
            let kept = verified(all, query, n);
            &&& matching(kept, query, kept.len()) == matching(all, query, n)
            &&& matching(kept, query, kept.len()).len() == kept.len()
        }),
    decreases n,
{
    if n > 0 {
        let m = (n - 1) as nat;
        verification_keeps_every_hit(all, query, m);
        let record = all[n - 1];
        let before = verified(all, query, m);
        hits_are_exactly_the_substring_matches(
            normalized(record.name@),
            normalized(record.path@),
            query,
        );
        if is_verified(record, query) {
            let kept = before.push(record);
            lemma_matching_extends(before, kept, query, before.len());
            assert(entry_of(record, query) is Some);
            assert(kept[kept.len() - 1] == record);
        } else {
            assert(entry_of(record, query) is None);
        }
    }
}

proof fn lemma_extended_keeps(
    found: Seq<DocumentAddress>,
    answer: Seq<DocumentAddress>,
    n: nat,
)
    requires
        n <= answer.len(),
    ensures
        found.is_prefix_of(extended(found, answer, n)),
        forall|a: DocumentAddress| #[trigger]
            extended(found, answer, n).contains(a) <==> found.contains(a) || answer.take(
                n as int,
            ).contains(a),
    decreases n,
{
    let all = extended(found, answer, n);
    if n == 0 {
        assert(answer.take(0) =~= Seq::empty());
    } else {
        let m = (n - 1) as nat;
        lemma_extended_keeps(found, answer, m);
        let before = extended(found, answer, m);
        let x = answer[n - 1];
        assert(answer.take(n as int) =~= answer.take(m as int).push(x));
        assert forall|a: DocumentAddress| #[trigger] all.contains(a) <==> found.contains(a)
            || answer.take(n as int).contains(a) by {
            let taken = answer.take(m as int);
            if taken.contains(a) {
                let i = taken.index_of(a);
                assert(taken.push(x)[i] == a);
            }
            assert(taken.push(x)[taken.len() as int] == x);
            if taken.push(x).contains(a) && a != x {
                let i = taken.push(x).index_of(a);
                assert(taken[i] == a);
            }
            if !before.contains(x) {
                assert(before.push(x)[before.len() as int] == x);
                if before.contains(a) {
                    assert(before.push(x)[before.index_of(a)] == a);
                }
                if before.push(x).contains(a) && a != x {
                    let i = before.push(x).index_of(a);
                    assert(before[i] == a);
                }
            }
        }
    }
}

/// Nothing that the index answers is lost and nothing is made up: after an answer an address is
/// among those found exactly when it was found before or is in the answer. What was found before
/// keeps its place.
pub proof fn every_answer_is_kept(m: RetrievalModel, answer: Seq<DocumentAddress>)
    ensures
        forall|a: DocumentAddress| #[trigger]
            answered(m, answer).found.contains(a) <==> m.found.contains(a) || answer.contains(a),
        m.found.is_prefix_of(answered(m, answer).found),
        answered(m, answer).query == m.query,
        answered(m, answer).limit == m.limit,
        answered(m, answer).strategy == m.strategy,
        answered(m, answer).allow_ngram == m.allow_ngram,
{
    lemma_extended_keeps(m.found, answer, answer.len());
    assert(answer.take(answer.len() as int) =~= answer);
}

/// An answer without repetitions and without what was found before is appended as it is: the best
/// answers stay first.
pub proof fn new_answers_keep_their_order(m: RetrievalModel, answer: Seq<DocumentAddress>, n: nat)
    requires
        n <= answer.len(),
        answer.no_duplicates(),
        forall|i: int| 0 <= i < answer.len() ==> !m.found.contains(#[trigger] answer[i]),
    ensures
        extended(m.found, answer, n) == m.found + answer.take(n as int),
        n == answer.len() ==> answered(m, answer).found == m.found + answer,
    decreases n,
{
    if n == 0 {
        assert(m.found + answer.take(0) =~= m.found);
    } else {
        let before = (n - 1) as nat;
        new_answers_keep_their_order(m, answer, before);
        lemma_extended_keeps(m.found, answer, before);
        let x = answer[n - 1];
        if answer.take(before as int).contains(x) {
            let i = answer.take(before as int).index_of(x);
            assert(answer[i] == answer[n - 1]);
        }
        assert((m.found + answer.take(before as int)).push(x) =~= m.found + answer.take(n as int));
    }
    if n == answer.len() {
        assert(answer.take(n as int) =~= answer);
    }
}

/// The candidates are the first of those found: all of them, or as many as the limit allows.
pub proof fn candidates_are_the_first_found(m: RetrievalModel)
    ensures
        candidates(m).is_prefix_of(m.found),
        candidates(m).len() == m.limit || candidates(m) == m.found,
        m.found.len() <= m.limit ==> candidates(m) == m.found,
{
}

} // verus!
