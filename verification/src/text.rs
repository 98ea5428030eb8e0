//! Text operations over the character sequence of a string.

use vstd::prelude::*;

verus! {

/// `String::push` appends one character.
pub assume_specification[ String::push ](text: &mut String, c: char)
    ensures
        final(text)@ == old(text)@.push(c),
;

/// What `str::to_lowercase` makes of a text.
pub uninterp spec fn lowercase_of(text: Seq<char>) -> Seq<char>;

/// What `char::to_lowercase` makes of a character.
pub uninterp spec fn lowercase_of_char(c: char) -> Seq<char>;

/// Whether `char::is_alphanumeric` holds of a character.
pub uninterp spec fn alphanumeric(c: char) -> bool;

/// Calls `str::to_lowercase`. The result depends on the text alone; how Unicode maps each
/// character is left to the standard library.
#[verifier::external_body]
pub(crate) fn lowercase(text: &str) -> (r: String)
    ensures
        r@ == lowercase_of(text@),
{
    text.to_lowercase()
}

/// Calls `char::to_lowercase` and collects the characters it yields.
#[verifier::external_body]
pub(crate) fn lowercase_char(c: char) -> (r: Vec<char>)
    ensures
        r@ == lowercase_of_char(c),
{
    c.to_lowercase().collect()
}

/// Calls `char::is_alphanumeric`.
#[verifier::external_body]
pub(crate) fn is_alphanumeric(c: char) -> (r: bool)
    ensures
        r == alphanumeric(c),
{
    c.is_alphanumeric()
}

/// Calls `char::from_u32`, which gives the character with a code, and nothing for the codes that
/// no character has: the surrogates and what lies beyond the last plane.
#[verifier::external_body]
pub(crate) fn char_with_code(code: u32) -> (r: Option<char>)
    ensures
        match r {
            Some(c) => c as u32 == code,
            None => 0xd800 <= code <= 0xdfff || code > 0x10ffff,
        },
{
    char::from_u32(code)
}

/// The view of an optional text.
pub open spec fn optional_text(text: Option<String>) -> Option<Seq<char>> {
    match text {
        Some(value) => Some(value@),
        None => None,
    }
}

/// The views of several texts.
pub open spec fn texts(values: Seq<String>) -> Seq<Seq<char>> {
    Seq::new(values.len(), |i: int| values[i]@)
}

/// The texts joined by one separator character.
pub open spec fn joined(parts: Seq<Seq<char>>, separator: char) -> Seq<char>
    decreases parts.len(),
{
    if parts.len() == 0 {
        Seq::empty()
    } else if parts.len() == 1 {
        parts[0]
    } else {
        joined(parts.drop_last(), separator) + seq![separator] + parts.last()
    }
}

/// The characters of a text.
pub fn chars_of(text: &str) -> (chars: Vec<char>)
    ensures
        chars@ == text@,
{
    let mut chars: Vec<char> = Vec::new();
    for c in iter: text.chars()
        invariant
            chars@ == iter.seq().take(iter.index()),
            iter.seq() == text@,
    {
        chars.push(c);
        assert(chars@ =~= iter.seq().take(iter.index() + 1));
    }
    assert(chars@ =~= text@);
    chars
}

/// The text made of the characters.
pub fn text_of(chars: &Vec<char>) -> (text: String)
    ensures
        text@ == chars@,
{
    let mut text = String::new();
    let mut i: usize = 0;
    while i < chars.len()
        invariant
            i <= chars@.len(),
            text@ == chars@.take(i as int),
        decreases chars@.len() - i,
    {
        text.push(chars[i]);
        i = i + 1;
        assert(text@ =~= chars@.take(i as int));
    }
    assert(text@ =~= chars@);
    text
}

/// Whether two texts have the same characters.
pub fn same_text(a: &str, b: &str) -> (r: bool)
    ensures
        r == (a@ == b@),
{
    a.to_owned() == b.to_owned()
}

/// A copy of an optional text.
pub fn copy_optional(text: &Option<String>) -> (r: Option<String>)
    ensures
        optional_text(r) == optional_text(*text),
{
    match text {
        Some(value) => Some(value.clone()),
        None => None,
    }
}

/// Whether two optional texts are equal.
pub fn same_optional(a: &Option<String>, b: &Option<String>) -> (r: bool)
    ensures
        r == (optional_text(*a) == optional_text(*b)),
{
    match (a, b) {
        (Some(x), Some(y)) => *x == *y,
        (None, None) => true,
        _ => false,
    }
}

/// A copy of a list of texts.
pub fn copy_texts(values: &Vec<String>) -> (r: Vec<String>)
    ensures
        texts(r@) == texts(values@),
{
    let mut r: Vec<String> = Vec::new();
    let mut i: usize = 0;
    while i < values.len()
        invariant
            i <= values@.len(),
            r@.len() == i,
            forall|j: int| 0 <= j < i ==> (#[trigger] r@[j])@ == values@[j]@,
        decreases values@.len() - i,
    {
        r.push(values[i].clone());
        i = i + 1;
    }
    assert(texts(r@) =~= texts(values@));
    r
}

/// A copy of a byte string.
pub fn copy_bytes(bytes: &Vec<u8>) -> (r: Vec<u8>)
    ensures
        r@ == bytes@,
{
    let r = bytes.clone();
    assert(r@ =~= bytes@);
    r
}

/// Three texts one after the other.
pub fn in_a_row(first: &str, second: &str, third: &str) -> (r: String)
    ensures
        r@ == first@ + second@ + third@,
{
    let mut r = first.to_owned();
    r.append(second);
    r.append(third);
    r
}

/// The text with every occurrence of one character replaced by a text.
pub open spec fn replaced(text: Seq<char>, from: char, to: Seq<char>) -> Seq<char>
    decreases text.len(),
{
    if text.len() == 0 {
        Seq::empty()
    } else {
        replaced(text.drop_last(), from, to) + (if text.last() == from {
            to
        } else {
            seq![text.last()]
        })
    }
}

/// Replaces every occurrence of one character by a text.
pub fn replace_char(text: &str, from: char, to: &str) -> (r: String)
    ensures
        r@ == replaced(text@, from, to@),
{
    let chars = chars_of(text);
    let mut r = String::new();
    let mut i: usize = 0;
    while i < chars.len()
        invariant
            i <= chars@.len(),
            chars@ == text@,
            r@ == replaced(text@.take(i as int), from, to@),
        decreases chars@.len() - i,
    {
        let ghost before = r@;
        let ghost next = text@.take(i + 1);
        assert(next.drop_last() =~= text@.take(i as int));
        if chars[i] == from {
            r.append(to);
        } else {
            r.push(chars[i]);
            assert(r@ =~= before + seq![text@[i as int]]);
        }
        i = i + 1;
    }
    assert(text@.take(i as int) =~= text@);
    r
}

/// Joins the texts with one separator character between neighbours.
pub fn join_with(parts: &Vec<String>, separator: char) -> (r: String)
    ensures
        r@ == joined(texts(parts@), separator),
{
    let mut r = String::new();
    let mut i: usize = 0;
    let ghost all = texts(parts@);
    while i < parts.len()
        invariant
            i <= parts@.len(),
            all == texts(parts@),
            r@ == joined(all.take(i as int), separator),
        decreases parts@.len() - i,
    {
        if i > 0 {
            r.push(separator);
        }
        r.append(parts[i].as_str());
        proof {
            let next = all.take(i + 1);
            assert(next.drop_last() =~= all.take(i as int));
            assert(next.last() == parts@[i as int]@);
            if i == 0 {
                assert(r@ =~= next[0]);
            } else {
                assert(r@ =~= joined(next, separator));
            }
        }
        i = i + 1;
    }
    assert(all.take(i as int) =~= all);
    r
}

/// Whether two byte strings are equal.
pub fn same_bytes(a: &Vec<u8>, b: &Vec<u8>) -> (r: bool)
    ensures
        r == (a@ == b@),
{
    if a.len() != b.len() {
        return false;
    }
    let mut i: usize = 0;
    while i < a.len()
        invariant
            a@.len() == b@.len(),
            i <= a@.len(),
            forall|j: int| 0 <= j < i ==> #[trigger] a@[j] == b@[j],
        decreases a@.len() - i,
    {
        if a[i] != b[i] {
            return false;
        }
        i = i + 1;
    }
    assert(a@ =~= b@);
    true
}

/// Characters are replaced one by one, wherever they stand: a text is replaced part by part, a
/// character that is looked for becomes what stands for it, and any other stays.
pub proof fn characters_are_replaced_one_by_one(a: Seq<char>, b: Seq<char>, from: char, to: Seq<char>)
    ensures
        replaced(a + b, from, to) == replaced(a, from, to) + replaced(b, from, to),
        replaced(seq![from], from, to) == to,
        forall|c: char| c != from ==> #[trigger] replaced(seq![c], from, to) == seq![c],
        replaced(Seq::empty(), from, to) == Seq::<char>::empty(),
    decreases b.len(),
{
    assert forall|c: char| true implies #[trigger] replaced(seq![c], from, to) == (if c == from {
        to
    } else {
        seq![c]
    }) by {
        assert(seq![c].drop_last() =~= Seq::empty());
        assert(replaced(seq![c].drop_last(), from, to) == Seq::<char>::empty());
    }
    if b.len() > 0 {
        characters_are_replaced_one_by_one(a, b.drop_last(), from, to);
        assert((a + b).drop_last() =~= a + b.drop_last());
        assert((a + b).last() == b.last());
    } else {
        assert(a + b =~= a);
    }
}

/// A character that is replaced by one other leaves the rest in its place.
pub proof fn characters_are_replaced_in_place(text: Seq<char>, from: char, to: char)
    ensures
        replaced(text, from, seq![to]).len() == text.len(),
        forall|i: int|
            0 <= i < text.len() ==> #[trigger] replaced(text, from, seq![to])[i] == (if text[i]
                == from {
                to
            } else {
                text[i]
            }),
    decreases text.len(),
{
    if text.len() > 0 {
        characters_are_replaced_in_place(text.drop_last(), from, to);
        let before = replaced(text.drop_last(), from, seq![to]);
        let whole = replaced(text, from, seq![to]);
        assert forall|i: int| 0 <= i < text.len() implies #[trigger] whole[i] == (if text[i] == from {
            to
        } else {
            text[i]
        }) by {
            if i < text.len() - 1 {
                assert(whole[i] == before[i]);
                assert(text.drop_last()[i] == text[i]);
            }
        }
    }
}

/// Texts are joined in their order, with one separator between two of them and none at the ends.
pub proof fn texts_are_joined_in_order(front: Seq<Seq<char>>, back: Seq<Seq<char>>, separator: char)
    ensures
        front.len() > 0 && back.len() > 0 ==> joined(front + back, separator) == joined(
            front,
            separator,
        ) + seq![separator] + joined(back, separator),
        forall|only: Seq<char>| #[trigger] joined(seq![only], separator) == only,
        joined(Seq::empty(), separator) == Seq::<char>::empty(),
    decreases back.len(),
{
    if front.len() > 0 && back.len() > 0 {
        let whole = front + back;
        assert(whole.last() == back.last());
        assert(whole.drop_last() =~= front + back.drop_last());
        if back.len() > 1 {
            texts_are_joined_in_order(front, back.drop_last(), separator);
            assert(joined(whole, separator) =~= joined(front, separator) + seq![separator] + joined(
                back,
                separator,
            ));
        } else {
            assert(whole.drop_last() =~= front);
        }
    }
}

/// Texts without the separator can be told apart once they are joined.
pub proof fn joined_texts_are_told_apart(a: Seq<Seq<char>>, b: Seq<Seq<char>>, separator: char)
    requires
        a.len() > 0,
        b.len() > 0,
        forall|i: int| 0 <= i < a.len() ==> !(#[trigger] a[i]).contains(separator),
        forall|i: int| 0 <= i < b.len() ==> !(#[trigger] b[i]).contains(separator),
        joined(a, separator) == joined(b, separator),
    ensures
        a == b,
    decreases a.len(),
{
    let whole = joined(a, separator);
    if a.len() == 1 && b.len() == 1 {
        assert(a =~= b);
    } else if a.len() == 1 {
        let at = joined(b.drop_last(), separator).len() as int;
        assert(whole[at] == separator);
        assert(a[0].contains(separator));
    } else if b.len() == 1 {
        let at = joined(a.drop_last(), separator).len() as int;
        assert(whole[at] == separator);
        assert(b[0].contains(separator));
    } else {
        let (x, y) = (joined(a.drop_last(), separator), joined(b.drop_last(), separator));
        assert(whole == x + seq![separator] + a.last());
        assert(whole == y + seq![separator] + b.last());
        assert(whole[x.len() as int] == separator);
        assert(whole[y.len() as int] == separator);
        if x.len() < y.len() {
            assert(a.last()[y.len() - x.len() - 1] == whole[y.len() as int]);
            assert(a[a.len() - 1].contains(separator));
        } else if y.len() < x.len() {
            assert(b.last()[x.len() - y.len() - 1] == whole[x.len() as int]);
            assert(b[b.len() - 1].contains(separator));
        }
        assert(x =~= whole.take(x.len() as int));
        assert(y =~= whole.take(y.len() as int));
        assert(a.last() =~= whole.skip(x.len() as int + 1));
        assert(b.last() =~= whole.skip(y.len() as int + 1));
        joined_texts_are_told_apart(a.drop_last(), b.drop_last(), separator);
        assert(a =~= a.drop_last().push(a.last()));
        assert(b =~= b.drop_last().push(b.last()));
    }
}

} // verus!
