//! Decimal notation of unsigned numbers.

use vstd::prelude::*;

use crate::text::chars_of;

verus! {

/// The decimal digit of a number below ten.
pub open spec fn digit(n: nat) -> char {
    (('0' as u32) + n) as char
}

/// The decimal notation of a number, without leading zeros.
pub open spec fn decimal(n: nat) -> Seq<char>
    decreases n,
{
    if n < 10 {
        seq![digit(n)]
    } else {
        decimal(n / 10).push(digit(n % 10))
    }
}

/// The decimal notation with zeros in front, up to a width.
pub open spec fn padded(n: nat, width: nat) -> Seq<char> {
    let plain = decimal(n);
    if plain.len() < width {
        Seq::new((width - plain.len()) as nat, |i: int| '0') + plain
    } else {
        plain
    }
}

/// Whether a character is a decimal digit.
pub open spec fn is_digit(c: char) -> bool {
    '0' <= c <= '9'
}

/// The number that a run of decimal digits denotes.
pub open spec fn number_of(digits: Seq<char>) -> nat
    decreases digits.len(),
{
    if digits.len() == 0 {
        0
    } else {
        number_of(digits.drop_last()) * 10 + (digits.last() as nat - '0' as nat) as nat
    }
}

/// The digits of a numeral: what follows an optional plus sign.
pub open spec fn unsigned_digits(text: Seq<char>) -> Seq<char> {
    if text.len() > 0 && text[0] == '+' {
        text.drop_first()
    } else {
        text
    }
}

/// The number that a numeral denotes: an optional plus sign and at least one decimal digit,
/// nothing else, and no more than the maximum.
pub open spec fn parsed(text: Seq<char>, maximum: nat) -> Option<nat> {
    let digits = unsigned_digits(text);
    if digits.len() > 0 && (forall|i: int| 0 <= i < digits.len() ==> is_digit(#[trigger] digits[i]))
        && number_of(digits) <= maximum {
        Some(number_of(digits))
    } else {
        None
    }
}

fn digit_of(n: u64) -> (c: char)
    requires
        n < 10,
    ensures
        c == digit(n as nat),
{
    match n {
        0 => '0',
        1 => '1',
        2 => '2',
        3 => '3',
        4 => '4',
        5 => '5',
        6 => '6',
        7 => '7',
        8 => '8',
        _ => '9',
    }
}

/// Writes a number in decimal.
pub fn write_decimal(n: u64) -> (text: String)
    ensures
        text@ == decimal(n as nat),
    decreases n,
{
    if n < 10 {
        let mut text = String::new();
        text.push(digit_of(n));
        assert(text@ =~= seq![digit(n as nat)]);
        text
    } else {
        let mut text = write_decimal(n / 10);
        text.push(digit_of(n % 10));
        text
    }
}

/// Writes a number in decimal with zeros in front, up to a width.
pub fn write_padded(n: u64, width: usize) -> (text: String)
    ensures
        text@ == padded(n as nat, width as nat),
{
    let plain = write_decimal(n);
    let length: usize = chars_of(plain.as_str()).len();
    if length >= width {
        return plain;
    }
    let mut text = String::new();
    let mut i: usize = length;
    while i < width
        invariant
            length <= i <= width,
            text@ =~= Seq::new((i - length) as nat, |k: int| '0'),
        decreases width - i,
    {
        text.push('0');
        i = i + 1;
    }
    text.append(plain.as_str());
    assert(text@ =~= padded(n as nat, width as nat));
    text
}

proof fn lemma_number_grows(digits: Seq<char>, n: int)
    requires
        0 <= n <= digits.len(),
    ensures
        number_of(digits.take(n)) <= number_of(digits),
    decreases digits.len(),
{
    if n < digits.len() {
        assert(digits.drop_last().take(n) =~= digits.take(n));
        lemma_number_grows(digits.drop_last(), n);
    } else {
        assert(digits.take(n) =~= digits);
    }
}

/// Reads an unsigned number of at most `maximum`.
pub fn parse_unsigned(text: &str, maximum: u64) -> (r: Option<u64>)
    ensures
        match r {
            Some(n) => parsed(text@, maximum as nat) == Some(n as nat),
            None => parsed(text@, maximum as nat) is None,
        },
{
    let chars = chars_of(text);
    let start: usize = if chars.len() > 0 && chars[0] == '+' {
        1
    } else {
        0
    };
    let ghost digits = unsigned_digits(text@);
    proof {
        assert(digits =~= chars@.skip(start as int));
    }
    if start == chars.len() {
        return None;
    }
    let mut n: u64 = 0;
    let mut i: usize = start;
    while i < chars.len()
        invariant
            start <= i <= chars@.len(),
            start <= 1,
            digits == chars@.skip(start as int),
            digits == unsigned_digits(text@),
            forall|k: int| 0 <= k < i - start ==> is_digit(#[trigger] digits[k]),
            n == number_of(digits.take(i - start)),
            n <= maximum,
        decreases chars@.len() - i,
    {
        let c: char = chars[i];
        let ghost done = digits.take(i - start);
        let ghost next = digits.take(i - start + 1);
        proof {
            assert(digits[i - start] == c);
            assert(next.drop_last() =~= done);
            lemma_number_grows(digits, i - start + 1);
        }
        if c < '0' || c > '9' {
            return None;
        }
        let value: u64 = (c as u32 - '0' as u32) as u64;
        match n.checked_mul(10) {
            Some(tens) => match tens.checked_add(value) {
                Some(sum) => {
                    if sum > maximum {
                        return None;
                    }
                    n = sum;
                },
                None => {
                    return None;
                },
            },
            None => {
                return None;
            },
        }
        i = i + 1;
    }
    assert(digits.take(i - start) =~= digits);
    Some(n)
}

/// The notation of a number is made of digits that denote the number.
pub proof fn decimal_denotes_the_number(n: nat)
    ensures
        decimal(n).len() > 0,
        forall|i: int| 0 <= i < decimal(n).len() ==> is_digit(#[trigger] decimal(n)[i]),
        number_of(decimal(n)) == n,
    decreases n,
{
    if n < 10 {
        let one = seq![digit(n)];
        assert(one.drop_last() =~= Seq::<char>::empty());
        assert(number_of(one.drop_last()) == 0);
    } else {
        decimal_denotes_the_number(n / 10);
        let rest = decimal(n / 10);
        let whole = rest.push(digit(n % 10));
        assert(whole.drop_last() =~= rest);
    }
}

/// Reading what was written gives the number back.
pub proof fn reading_inverts_writing(n: nat, maximum: nat)
    requires
        n <= maximum,
    ensures
        parsed(decimal(n), maximum) == Some(n),
{
    decimal_denotes_the_number(n);
    assert(is_digit(decimal(n)[0]));
}

/// Zeros in front do not change the number.
proof fn lemma_leading_zeros(zeros: nat, digits: Seq<char>)
    ensures
        number_of(Seq::new(zeros, |i: int| '0') + digits) == number_of(digits),
    decreases zeros + digits.len(),
{
    let front = Seq::new(zeros, |i: int| '0');
    let whole = front + digits;
    if digits.len() > 0 {
        assert(whole.drop_last() =~= front + digits.drop_last());
        lemma_leading_zeros(zeros, digits.drop_last());
    } else if zeros > 0 {
        let shorter = Seq::new((zeros - 1) as nat, |i: int| '0');
        assert(whole.drop_last() =~= shorter + digits);
        lemma_leading_zeros((zeros - 1) as nat, digits);
        assert(whole.last() == '0');
    } else {
        assert(whole =~= digits);
    }
}

/// A number with zeros in front is as wide as asked for, or wider where its notation is; it reads
/// back as the number, so that two numbers are never written alike.
pub proof fn padding_keeps_the_number(n: nat, width: nat)
    ensures
        padded(n, width).len() >= width,
        decimal(n).len() <= width ==> padded(n, width).len() == width,
        decimal(n).is_suffix_of(padded(n, width)),
        number_of(padded(n, width)) == n,
        parsed(padded(n, width), n) == Some(n),
{
    decimal_denotes_the_number(n);
    let plain = decimal(n);
    if plain.len() < width {
        lemma_leading_zeros((width - plain.len()) as nat, plain);
    }
    let all = padded(n, width);
    assert forall|i: int| 0 <= i < all.len() implies is_digit(#[trigger] all[i]) by {
        if plain.len() < width && i >= width - plain.len() {
            assert(all[i] == plain[i - (width - plain.len())]);
        }
    }
    assert(is_digit(all[0]));
}

/// A numeral is read digit by digit: one more digit makes the number ten times as large and adds
/// the digit. A plus sign in front changes nothing; any other character spoils it.
pub proof fn numerals_are_read_by_digit(digits: Seq<char>, more: char, maximum: nat)
    requires
        digits.len() > 0,
        forall|i: int| 0 <= i < digits.len() ==> is_digit(#[trigger] digits[i]),
        parsed(digits, maximum) is Some,
    ensures
        parsed(seq!['+'] + digits, maximum) == parsed(digits, maximum),
        !is_digit(more) ==> parsed(digits.push(more), maximum) is None,
        is_digit(more) ==> {
            let next = parsed(digits, maximum)->0 * 10 + (more as nat - '0' as nat);
            parsed(digits.push(more), maximum) == (if next <= maximum {
                Some(next as nat)
            } else {
                None
            })
        },
{
    assert(is_digit(digits[0]));
    assert((seq!['+'] + digits).drop_first() =~= digits);
    let longer = digits.push(more);
    assert(longer.drop_last() =~= digits);
    assert(longer[0] == digits[0]);
    assert(unsigned_digits(longer) == longer);
    if is_digit(more) {
        assert forall|i: int| 0 <= i < longer.len() implies is_digit(#[trigger] longer[i]) by {
            if i < digits.len() {
                assert(longer[i] == digits[i]);
            }
        }
    } else {
        assert(!is_digit(longer[digits.len() as int]));
    }
}

} // verus!
