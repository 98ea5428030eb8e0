//! Text as it is compared: compatibility-composed, lower case, with one kind of separator.

use vstd::prelude::*;

use unicode_normalization::UnicodeNormalization;

use crate::text::{
    alphanumeric, chars_of, is_alphanumeric, lowercase_char, lowercase_of_char, text_of, texts,
};

verus! {

/// The compatibility composition (NFKC) that `unicode_normalization` gives of a text.
pub uninterp spec fn composed(text: Seq<char>) -> Seq<char>;

/// Calls `UnicodeNormalization::nfkc` and collects the characters it yields. What the
/// composition is follows the Unicode tables of the crate; it depends on the text alone.
#[verifier::external_body]
fn compose(text: &str) -> (r: Vec<char>)
    ensures
        r@ == composed(text@),
{
    text.nfkc().collect()
}

/// Every character in lower case, one after the other.
pub open spec fn lowered(text: Seq<char>) -> Seq<char>
    decreases text.len(),
{
    if text.len() == 0 {
        Seq::empty()
    } else {
        lowered(text.drop_last()) + lowercase_of_char(text.last())
    }
}

/// The character separates path components.
pub open spec fn is_separator(c: char) -> bool {
    c == '\\' || c == '/'
}

/// The text with each run of separators replaced by one slash.
pub open spec fn separated(text: Seq<char>) -> Seq<char>
    decreases text.len(),
{
    if text.len() == 0 {
        Seq::empty()
    } else if !is_separator(text.last()) {
        separated(text.drop_last()).push(text.last())
    } else if text.len() >= 2 && is_separator(text[text.len() - 2]) {
        separated(text.drop_last())
    } else {
        separated(text.drop_last()).push('/')
    }
}

/// The text as it is compared.
pub open spec fn normalized(text: Seq<char>) -> Seq<char> {
    separated(lowered(composed(text)))
}

/// Every character in lower case, one after the other.
pub fn lower_characters(chars: &Vec<char>) -> (r: Vec<char>)
    ensures
        r@ == lowered(chars@),
{
    let mut r: Vec<char> = Vec::new();
    let mut i: usize = 0;
    while i < chars.len()
        invariant
            i <= chars@.len(),
            r@ == lowered(chars@.take(i as int)),
        decreases chars@.len() - i,
    {
        let mut lower = lowercase_char(chars[i]);
        r.append(&mut lower);
        proof {
            let next = chars@.take(i + 1);
            assert(next.drop_last() =~= chars@.take(i as int));
            assert(next.last() == chars@[i as int]);
        }
        i = i + 1;
    }
    assert(chars@.take(i as int) =~= chars@);
    r
}

/// The text with each run of separators replaced by one slash.
pub fn collapse_separators(chars: &Vec<char>) -> (r: String)
    ensures
        r@ == separated(chars@),
{
    let mut r = String::new();
    let mut previous_separator = false;
    let mut i: usize = 0;
    while i < chars.len()
        invariant
            i <= chars@.len(),
            previous_separator == (i > 0 && is_separator(chars@[i - 1])),
            r@ == separated(chars@.take(i as int)),
        decreases chars@.len() - i,
    {
        let c = chars[i];
        let separator = c == '\\' || c == '/';
        proof {
            let next = chars@.take(i + 1);
            assert(next.drop_last() =~= chars@.take(i as int));
            assert(next.last() == c);
            if i > 0 {
                assert(next[next.len() - 2] == chars@[i - 1]);
            }
        }
        if separator {
            if !previous_separator {
                r.push('/');
            }
        } else {
            r.push(c);
        }
        previous_separator = separator;
        i = i + 1;
    }
    assert(chars@.take(i as int) =~= chars@);
    r
}

/// Normalizes a name, a path or a query for comparison.
pub fn normalize_search_text(value: &str) -> (r: String)
    ensures
        r@ == normalized(value@),
{
    let composed = compose(value);
    let folded = lower_characters(&composed);
    collapse_separators(&folded)
}

/// No backslash is left, and no two slashes stand together.
pub open spec fn is_separator_stable(text: Seq<char>) -> bool {
    &&& forall|i: int| 0 <= i < text.len() ==> #[trigger] text[i] != '\\'
    &&& forall|i: int| 0 < i < text.len() && #[trigger] text[i] == '/' ==> text[i - 1] != '/'
}

/// Normalized text is separator-stable: it holds no backslash and no two slashes in a row.
pub proof fn normalized_text_is_separator_stable(text: Seq<char>)
    ensures
        is_separator_stable(separated(text)),
        text.len() > 0 && separated(text).len() > 0 ==> (separated(text).last() == '/'
            <==> is_separator(text.last())),
        text.len() > 0 ==> separated(text).len() > 0,
    decreases text.len(),
{
    if text.len() > 0 {
        let before = text.drop_last();
        normalized_text_is_separator_stable(before);
        let s = separated(text);
        if before.len() > 0 {
            assert(before.last() == text[text.len() - 2]);
        }
        assert forall|i: int| 0 < i < s.len() && #[trigger] s[i] == '/' implies s[i - 1]
            != '/' by {
            if s.len() == separated(before).len() {
                assert(s =~= separated(before));
            } else {
                assert(s.drop_last() =~= separated(before));
                if i < s.len() - 1 {
                    assert(separated(before)[i] == s[i]);
                    assert(separated(before)[i - 1] == s[i - 1]);
                } else {
                    assert(s[i - 1] == separated(before).last());
                }
            }
        }
        assert forall|i: int| 0 <= i < s.len() implies #[trigger] s[i] != '\\' by {
            if s.len() > separated(before).len() && i < s.len() - 1 {
                assert(separated(before)[i] == s[i]);
            }
        }
    }
}

/// Collapsing separators again changes nothing.
pub proof fn collapsing_is_idempotent(text: Seq<char>)
    ensures
        separated(separated(text)) == separated(text),
{
    normalized_text_is_separator_stable(text);
    lemma_stable_is_fixed(separated(text));
}

proof fn lemma_stable_is_fixed(text: Seq<char>)
    requires
        is_separator_stable(text),
    ensures
        separated(text) == text,
    decreases text.len(),
{
    if text.len() > 0 {
        let before = text.drop_last();
        assert forall|i: int| 0 < i < before.len() && #[trigger] before[i] == '/' implies before[i
            - 1] != '/' by {
            assert(text[i] == before[i]);
        }
        assert forall|i: int| 0 <= i < before.len() implies #[trigger] before[i] != '\\' by {
            assert(text[i] == before[i]);
        }
        lemma_stable_is_fixed(before);
        let last = text.len() - 1;
        assert(text[last] != '\\');
        if text.len() >= 2 {
            assert(text[text.len() - 2] != '\\');
            if text[last] == '/' {
                assert(text[last - 1] != '/');
            }
        }
        assert(separated(text) =~= before.push(text.last()));
        assert(before.push(text.last()) =~= text);
    }
}

/// The end of the run of letters and digits that starts at `i`.
pub open spec fn run_end(text: Seq<char>, i: int) -> int
    decreases text.len() - i,
{
    if 0 <= i < text.len() && alphanumeric(text[i]) {
        run_end(text, i + 1)
    } else {
        i
    }
}

proof fn lemma_run_end(text: Seq<char>, i: int)
    requires
        0 <= i <= text.len(),
    ensures
        i <= run_end(text, i) <= text.len(),
        forall|j: int| i <= j < run_end(text, i) ==> alphanumeric(#[trigger] text[j]),
        run_end(text, i) < text.len() ==> !alphanumeric(text[run_end(text, i)]),
    decreases text.len() - i,
{
    if i < text.len() && alphanumeric(text[i]) {
        lemma_run_end(text, i + 1);
    }
}

/// The tokens of a text from `i` on: its maximal runs of letters and digits.
pub open spec fn tokens_from(text: Seq<char>, i: int) -> Seq<Seq<char>>
    decreases text.len() - i,
{
    if i < 0 || i >= text.len() {
        Seq::empty()
    } else if alphanumeric(text[i]) {
        if run_end(text, i) > i && run_end(text, i) <= text.len() {
            seq![text.subrange(i, run_end(text, i))] + tokens_from(text, run_end(text, i))
        } else {
            Seq::empty()
        }
    } else {
        tokens_from(text, i + 1)
    }
}

/// The tokens of a text.
pub open spec fn tokens(text: Seq<char>) -> Seq<Seq<char>> {
    tokens_from(text, 0)
}

/// The stretch from `i` to `j` is a maximal run of letters and digits.
pub open spec fn is_run(text: Seq<char>, i: int, j: int) -> bool {
    &&& 0 <= i < j <= text.len()
    &&& forall|k: int| i <= k < j ==> alphanumeric(#[trigger] text[k])
    &&& i == 0 || !alphanumeric(text[i - 1])
    &&& j == text.len() || !alphanumeric(text[j])
}

/// Splits normalized text into its tokens.
pub fn tokenize(normalized: &str) -> (r: Vec<String>)
    ensures
        texts(r@) == tokens(normalized@),
{
    let chars = chars_of(normalized);
    let mut r: Vec<String> = Vec::new();
    let mut i: usize = 0;
    proof {
        assert(texts(r@) + tokens_from(chars@, 0) =~= tokens_from(chars@, 0));
    }
    while i < chars.len()
        invariant
            i <= chars@.len(),
            texts(r@) + tokens_from(chars@, i as int) == tokens(chars@),
        decreases chars@.len() - i,
    {
        if !is_alphanumeric(chars[i]) {
            i = i + 1;
        } else {
            let start: usize = i;
            let mut token: Vec<char> = Vec::new();
            proof {
                lemma_run_end(chars@, start as int);
            }
            while i < chars.len() && is_alphanumeric(chars[i])
                invariant
                    start <= i <= chars@.len(),
                    run_end(chars@, start as int) == run_end(chars@, i as int),
                    token@ == chars@.subrange(start as int, i as int),
                ensures
                    start <= i <= chars@.len(),
                    run_end(chars@, start as int) == i,
                    token@ == chars@.subrange(start as int, i as int),
                decreases chars@.len() - i,
            {
                token.push(chars[i]);
                i = i + 1;
                assert(token@ =~= chars@.subrange(start as int, i as int));
            }
            let ghost before = texts(r@);
            r.push(text_of(&token));
            proof {
                assert(texts(r@) =~= before.push(token@));
                assert(before + (seq![token@] + tokens_from(chars@, i as int)) =~= texts(r@)
                    + tokens_from(chars@, i as int));
            }
        }
    }
    assert(texts(r@) + tokens_from(chars@, i as int) =~= texts(r@));
    r
}

proof fn lemma_tokens_are_runs(text: Seq<char>, from: int, token: Seq<char>)
    requires
        0 <= from <= text.len(),
        from == 0 || from == text.len() || !alphanumeric(text[from]) || !alphanumeric(
            text[from - 1],
        ),
    ensures
        tokens_from(text, from).contains(token) <==> exists|i: int, j: int|
            from <= i && #[trigger] is_run(text, i, j) && text.subrange(i, j) == token,
    decreases text.len() - from,
{
    if from < text.len() {
        if alphanumeric(text[from]) {
            lemma_run_end(text, from);
            let end = run_end(text, from);
            lemma_run_end_grows(text, from);
            assert(is_run(text, from, end));
            lemma_tokens_are_runs(text, end, token);
            let first = text.subrange(from, end);
            let rest = tokens_from(text, end);
            let all = seq![first] + rest;
            assert(all[0] == first);
            if all.contains(token) {
                let x = all.index_of(token);
                if x > 0 {
                    assert(rest[x - 1] == token);
                    assert(rest.contains(token));
                    let (i, j) = choose|i: int, j: int|
                        end <= i && #[trigger] is_run(text, i, j) && text.subrange(i, j) == token;
                    assert(from <= i && is_run(text, i, j));
                }
            }
            if exists|i: int, j: int|
                from <= i && #[trigger] is_run(text, i, j) && text.subrange(i, j) == token {
                let (i, j) = choose|i: int, j: int|
                    from <= i && #[trigger] is_run(text, i, j) && text.subrange(i, j) == token;
                if i == from {
                    if j < end {
                        assert(alphanumeric(text[j]));
                    }
                    if j > end {
                        assert(alphanumeric(text[end]));
                    }
                    assert(all.contains(token));
                } else {
                    if i < end {
                        assert(alphanumeric(text[i - 1]));
                    }
                    assert(end <= i && is_run(text, i, j));
                    assert(rest.contains(token));
                    let x = rest.index_of(token);
                    assert(all[x + 1] == token);
                }
            }
        } else {
            lemma_tokens_are_runs(text, from + 1, token);
            if exists|i: int, j: int|
                from <= i && #[trigger] is_run(text, i, j) && text.subrange(i, j) == token {
                let (i, j) = choose|i: int, j: int|
                    from <= i && #[trigger] is_run(text, i, j) && text.subrange(i, j) == token;
                assert(alphanumeric(text[i]));
                assert(from + 1 <= i && is_run(text, i, j));
            }
            if exists|i: int, j: int|
                from + 1 <= i && #[trigger] is_run(text, i, j) && text.subrange(i, j) == token {
                let (i, j) = choose|i: int, j: int|
                    from + 1 <= i && #[trigger] is_run(text, i, j) && text.subrange(i, j) == token;
                assert(from <= i && is_run(text, i, j));
            }
        }
    } else {
        assert forall|i: int, j: int|
            from <= i && #[trigger] is_run(text, i, j) && text.subrange(i, j) == token implies
            false by {
        }
    }
}

proof fn lemma_run_end_grows(text: Seq<char>, i: int)
    requires
        0 <= i < text.len(),
        alphanumeric(text[i]),
    ensures
        run_end(text, i) > i,
{
    lemma_run_end(text, i + 1);
}

/// The tokens of a text are exactly its maximal runs of letters and digits.
pub proof fn tokens_are_the_maximal_runs(text: Seq<char>, token: Seq<char>)
    ensures
        tokens(text).contains(token) <==> exists|i: int, j: int| #[trigger]
            is_run(text, i, j) && text.subrange(i, j) == token,
{
    lemma_tokens_are_runs(text, 0, token);
    if exists|i: int, j: int| #[trigger] is_run(text, i, j) && text.subrange(i, j) == token {
        let (i, j) = choose|i: int, j: int| #[trigger]
            is_run(text, i, j) && text.subrange(i, j) == token;
        assert(0 <= i && is_run(text, i, j));
    }
}

} // verus!
