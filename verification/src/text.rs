//! Text helpers shared by the adapters: UTF-8 offsets, decimal numbers and
//! string building, all stated over `Seq<char>`.

use vstd::prelude::*;
use vstd::string::*;
use vstd::utf8::*;

verus! {

/// `String::push` appends one character.
pub assume_specification[ String::push ](s: &mut String, c: char)
    ensures
        final(s)@ == old(s)@.push(c),
;

/// Number of bytes a character takes in UTF-8.
pub open spec fn utf8_width(c: char) -> nat {
    if c as u32 <= 0x7f {
        1
    } else if c as u32 <= 0x7ff {
        2
    } else if c as u32 <= 0xffff {
        3
    } else {
        4
    }
}

/// Number of bytes a sequence of characters takes in UTF-8.
pub open spec fn utf8_len(chars: Seq<char>) -> nat {
    encode_utf8(chars).len()
}

/// Byte offset of the `i`-th character.
pub open spec fn byte_offset(chars: Seq<char>, i: int) -> nat {
    utf8_len(chars.take(i))
}

pub fn char_width(c: char) -> (width: usize)
    ensures
        width == utf8_width(c),
{
    let code: u32 = c as u32;
    if code <= 0x7f {
        1
    } else if code <= 0x7ff {
        2
    } else if code <= 0xffff {
        3
    } else {
        4
    }
}

pub proof fn lemma_encode_one(c: char)
    ensures
        encode_utf8(seq![c]) == encode_scalar(c as u32),
        encode_scalar(c as u32).len() == utf8_width(c),
{
    assert(seq![c].drop_first() =~= Seq::<char>::empty());
    reveal_with_fuel(encode_utf8, 2);
    assert(encode_utf8(seq![c]) =~= encode_scalar(c as u32));
}

pub proof fn lemma_encode_concat(a: Seq<char>, b: Seq<char>)
    ensures
        encode_utf8(a + b) == encode_utf8(a) + encode_utf8(b),
    decreases a.len(),
{
    if a.len() == 0 {
        assert(a + b =~= b);
        assert(encode_utf8(a) + encode_utf8(b) =~= encode_utf8(b));
    } else {
        assert((a + b).drop_first() =~= a.drop_first() + b);
        assert((a + b)[0] == a[0]);
        lemma_encode_concat(a.drop_first(), b);
        assert(encode_utf8(a + b) =~= encode_utf8(a) + encode_utf8(b));
    }
}

/// One more character adds its own width.
pub proof fn lemma_offset_step(chars: Seq<char>, i: int)
    requires
        0 <= i < chars.len(),
    ensures
        byte_offset(chars, i + 1) == byte_offset(chars, i) + utf8_width(chars[i]),
{
    assert(chars.take(i + 1) =~= chars.take(i) + seq![chars[i]]);
    lemma_encode_concat(chars.take(i), seq![chars[i]]);
    lemma_encode_one(chars[i]);
}

pub proof fn lemma_offset_ends(chars: Seq<char>)
    ensures
        byte_offset(chars, 0) == 0,
        byte_offset(chars, chars.len() as int) == utf8_len(chars),
{
    assert(chars.take(0) =~= Seq::<char>::empty());
    assert(chars.take(chars.len() as int) =~= chars);
}

/// Offsets grow strictly with the character index.
pub proof fn lemma_offset_monotone(chars: Seq<char>, i: int, j: int)
    requires
        0 <= i < j <= chars.len(),
    ensures
        byte_offset(chars, i) < byte_offset(chars, j),
    decreases j - i,
{
    lemma_offset_step(chars, j - 1);
    if i < j - 1 {
        lemma_offset_monotone(chars, i, j - 1);
    }
}

/// A valid encoding that starts another one ends on a character boundary.
pub proof fn lemma_prefix_boundary(bytes: Seq<u8>, prefix: Seq<u8>)
    requires
        valid_utf8(bytes),
        valid_utf8(prefix),
        prefix.len() <= bytes.len(),
        bytes.subrange(0, prefix.len() as int) == prefix,
    ensures
        is_char_boundary(bytes, prefix.len() as int),
    decreases prefix.len(),
{
    if prefix.len() > 0 {
        assert(forall|k: int| 0 <= k < prefix.len() ==> prefix[k] == bytes[k]) by {
            assert forall|k: int| 0 <= k < prefix.len() implies prefix[k] == bytes[k] by {
                assert(bytes.subrange(0, prefix.len() as int)[k] == bytes[k]);
            }
        }
        let n = length_of_first_scalar(prefix);
        assert(n == length_of_first_scalar(bytes));
        let rest = pop_first_scalar(bytes);
        let prefix_rest = pop_first_scalar(prefix);
        assert(rest.subrange(0, prefix_rest.len() as int) =~= prefix_rest);
        lemma_prefix_boundary(rest, prefix_rest);
    }
}

/// Boundaries compose: one in the tail behind a boundary is one in the whole.
pub proof fn lemma_boundary_compose(bytes: Seq<u8>, p: int, q: int)
    requires
        valid_utf8(bytes),
        is_char_boundary(bytes, p),
        0 <= p <= bytes.len(),
        0 <= q,
        valid_utf8(bytes.subrange(p, bytes.len() as int)),
        is_char_boundary(bytes.subrange(p, bytes.len() as int), q),
    ensures
        is_char_boundary(bytes, p + q),
    decreases bytes.len(),
{
    if p == 0 {
        assert(bytes.subrange(0, bytes.len() as int) =~= bytes);
    } else {
        let n = length_of_first_scalar(bytes);
        let rest = pop_first_scalar(bytes);
        assert(is_char_boundary(rest, p - n));
        if p - n < 0 {
            reveal_with_fuel(is_char_boundary, 2);
            assert(false);
        }
        assert(rest.subrange(p - n, rest.len() as int) =~= bytes.subrange(p, bytes.len() as int));
        lemma_boundary_compose(rest, p - n, q);
        lemma_boundary_in_range(bytes.subrange(p, bytes.len() as int), q);
    }
}

pub proof fn lemma_boundary_in_range(bytes: Seq<u8>, q: int)
    requires
        valid_utf8(bytes),
        is_char_boundary(bytes, q),
    ensures
        0 <= q <= bytes.len(),
{
    reveal_with_fuel(is_char_boundary, 1);
}

/// Every character index gives a boundary.
pub proof fn lemma_offset_is_boundary(chars: Seq<char>, i: int)
    requires
        0 <= i <= chars.len(),
    ensures
        is_char_boundary(encode_utf8(chars), byte_offset(chars, i) as int),
{
    broadcast use encode_utf8_valid_utf8;

    let head = chars.take(i);
    let tail = chars.skip(i);
    assert(chars =~= head + tail);
    lemma_encode_concat(head, tail);
    let bytes = encode_utf8(chars);
    assert(bytes.subrange(0, encode_utf8(head).len() as int) =~= encode_utf8(head));
    lemma_prefix_boundary(bytes, encode_utf8(head));
}

/// Every boundary comes from a character index.
pub proof fn lemma_boundary_is_offset(chars: Seq<char>, at: int) -> (i: int)
    requires
        is_char_boundary(encode_utf8(chars), at),
    ensures
        0 <= i <= chars.len(),
        byte_offset(chars, i) == at,
    decreases chars.len(),
{
    broadcast use encode_utf8_valid_utf8;

    if at == 0 {
        lemma_offset_ends(chars);
        0
    } else {
        let bytes = encode_utf8(chars);
        lemma_boundary_in_range(bytes, at);
        if chars.len() == 0 {
            0
        } else {
            let rest = chars.drop_first();
            encode_utf8_first_scalar(chars);
            lemma_encode_one(chars[0]);
            assert(pop_first_scalar(bytes) =~= encode_utf8(rest));
            let j = lemma_boundary_is_offset(rest, at - utf8_width(chars[0]));
            assert(chars.take(j + 1) =~= seq![chars[0]] + rest.take(j));
            lemma_encode_concat(seq![chars[0]], rest.take(j));
            j + 1
        }
    }
}

/// The encoding determines the characters.
pub proof fn lemma_encode_injective(a: Seq<char>, b: Seq<char>)
    requires
        encode_utf8(a) == encode_utf8(b),
    ensures
        a == b,
{
    encode_utf8_decode_utf8(a);
    encode_utf8_decode_utf8(b);
}

/// The characters of a text as a vector.
pub fn char_list(text: &str) -> (chars: Vec<char>)
    ensures
        chars@ == text@,
{
    let mut chars: Vec<char> = Vec::new();
    for c in iter: text.chars()
        invariant
            chars@ == iter.seq().take(iter.index() as int),
            iter.seq() == text@,
    {
        chars.push(c);
        assert(iter.seq().take(iter.index() + 1) =~= iter.seq().take(iter.index() as int).push(c));
    }
    assert(text@.take(text@.len() as int) =~= text@);
    chars
}

/// Whether two texts hold the same characters.
pub fn same_text(a: &str, b: &str) -> (same: bool)
    ensures
        same == (a@ == b@),
{
    let left = a.to_owned();
    let right = b.to_owned();
    left == right
}

/// Decimal digits of a number, without leading zeros.
pub open spec fn decimal(n: nat) -> Seq<char>
    decreases n,
{
    if n < 10 {
        seq![digit_char(n)]
    } else {
        decimal(n / 10).push(digit_char(n % 10))
    }
}

pub open spec fn digit_char(d: nat) -> char {
    (0x30 + d) as char
}

pub open spec fn is_digit(c: char) -> bool {
    '0' <= c <= '9'
}

pub open spec fn digit_of(c: char) -> nat {
    (c as int - '0' as int) as nat
}

/// The number a run of decimal digits stands for.
pub open spec fn digits_value(digits: Seq<char>) -> nat
    decreases digits.len(),
{
    if digits.len() == 0 {
        0
    } else {
        10 * digits_value(digits.drop_last()) + digit_of(digits.last())
    }
}

pub open spec fn all_digits(digits: Seq<char>) -> bool {
    forall|i: int| 0 <= i < digits.len() ==> is_digit(#[trigger] digits[i])
}

fn digit(d: usize) -> (c: char)
    requires
        d < 10,
    ensures
        c == digit_char(d as nat),
{
    match d {
        0 => '0',
        1 => '1',
        2 => '2',
        3 => '3',
        4 => '4',
        5 => '5',
        6 => '6',
        7 => '7',
        8 => '8',
        _ => '9',
    }
}

/// `format!("{n}")`.
pub fn decimal_text(n: usize) -> (text: String)
    ensures
        text@ == decimal(n as nat),
    decreases n,
{
    if n < 10 {
        let mut text = String::new();
        text.push(digit(n));
        assert(text@ =~= seq![digit_char(n as nat)]);
        text
    } else {
        let mut text = decimal_text(n / 10);
        text.push(digit(n % 10));
        text
    }
}

/// `format!("{n}")`, of a number of fixed width.
pub fn decimal_text_wide(n: u64) -> (text: String)
    ensures
        text@ == decimal(n as nat),
    decreases n,
{
    let last: usize = (n % 10) as usize;
    if n < 10 {
        let mut text = String::new();
        text.push(digit(last));
        assert(text@ =~= seq![digit_char(n as nat)]);
        text
    } else {
        let mut text = decimal_text_wide(n / 10);
        text.push(digit(last));
        text
    }
}

/// A number has one decimal form.
pub proof fn lemma_decimal_injective(a: nat, b: nat)
    requires
        decimal(a) == decimal(b),
    ensures
        a == b,
    decreases a,
{
    lemma_decimal_nonempty(a / 10);
    lemma_decimal_nonempty(b / 10);
    if a < 10 {
        if b >= 10 {
            assert(decimal(b).len() == decimal(b / 10).len() + 1);
            assert(decimal(a).len() == 1);
        } else {
            assert(decimal(a)[0] == digit_char(a));
            assert(decimal(b)[0] == digit_char(b));
            assert(digit_char(a) as int == 0x30 + a);
            assert(digit_char(b) as int == 0x30 + b);
        }
    } else if b < 10 {
        assert(decimal(a).len() == decimal(a / 10).len() + 1);
        assert(decimal(b).len() == 1);
    } else {
        assert(decimal(a).last() == digit_char(a % 10));
        assert(decimal(b).last() == digit_char(b % 10));
        assert(decimal(a).drop_last() =~= decimal(a / 10));
        assert(decimal(b).drop_last() =~= decimal(b / 10));
        lemma_decimal_injective(a / 10, b / 10);
        assert(digit_char(a % 10) as int == 0x30 + a % 10);
        assert(digit_char(b % 10) as int == 0x30 + b % 10);
    }
}

proof fn lemma_decimal_nonempty(n: nat)
    ensures
        decimal(n).len() >= 1,
{
}

/// A prefix followed by a decimal number, such as `shadow-3`.
pub fn numbered(prefix: &str, n: usize) -> (text: String)
    ensures
        text@ == prefix@ + decimal(n as nat),
{
    let number = decimal_text(n);
    let mut text = prefix.to_owned();
    text.append(number.as_str());
    text
}

/// What `str::parse::<usize>` accepts: an optional plus sign, then one or more
/// decimal digits whose value fits.
pub open spec fn parsed_usize(chars: Seq<char>) -> Option<usize> {
    let digits = if chars.len() > 0 && chars[0] == '+' {
        chars.skip(1)
    } else {
        chars
    };
    if digits.len() > 0 && all_digits(digits) && digits_value(digits) <= usize::MAX {
        Some(digits_value(digits) as usize)
    } else {
        None
    }
}

proof fn lemma_digits_prefix(digits: Seq<char>, i: int)
    requires
        0 <= i <= digits.len(),
    ensures
        digits_value(digits.take(i)) <= digits_value(digits),
    decreases digits.len() - i,
{
    if i < digits.len() {
        assert(digits.take(i + 1).drop_last() =~= digits.take(i));
        lemma_digits_prefix(digits, i + 1);
    } else {
        assert(digits.take(i) =~= digits);
    }
}

pub fn parse_usize(text: &str) -> (number: Option<usize>)
    ensures
        number == parsed_usize(text@),
{
    let chars = char_list(text);
    let start: usize = if chars.len() > 0 && chars[0] == '+' {
        1
    } else {
        0
    };
    let ghost digits = chars@.skip(start as int);
    proof {
        assert(chars@.skip(0) =~= chars@);
    }
    if start == chars.len() {
        return None;
    }
    let mut value: usize = 0;
    let mut i: usize = start;
    while i < chars.len()
        invariant
            start <= i <= chars.len(),
            start <= 1,
            digits == chars@.skip(start as int),
            forall|k: int| 0 <= k < i - start ==> is_digit(#[trigger] digits[k]),
            value == digits_value(digits.take(i - start)),
            chars@ == text@,
            digits.len() > 0,
            digits == (if text@.len() > 0 && text@[0] == '+' {
                text@.skip(1)
            } else {
                text@
            }),
        decreases chars.len() - i,
    {
        let c = chars[i];
        assert(digits[i - start] == c);
        if !('0' <= c && c <= '9') {
            return None;
        }
        let d: usize = c as usize - '0' as usize;
        proof {
            assert(digits.take(i - start + 1).drop_last() =~= digits.take(i - start));
            assert(digits.take(i - start + 1).last() == c);
            lemma_digits_prefix(digits, i - start + 1);
        }
        match value.checked_mul(10) {
            Some(scaled) => {
                match scaled.checked_add(d) {
                    Some(next) => {
                        value = next;
                    },
                    None => {
                        return None;
                    },
                }
            },
            None => {
                return None;
            },
        }
        i = i + 1;
    }
    assert(digits.take(digits.len() as int) =~= digits);
    Some(value)
}

/// Reading a printed number gives the number back.
pub proof fn lemma_decimal_parses(n: usize)
    ensures
        parsed_usize(decimal(n as nat)) == Some(n),
{
    lemma_decimal_digits(n as nat);
    assert(is_digit(decimal(n as nat)[0]));
}

proof fn lemma_decimal_digits(n: nat)
    ensures
        all_digits(decimal(n)),
        decimal(n).len() > 0,
        digits_value(decimal(n)) == n,
    decreases n,
{
    if n < 10 {
        let s = seq![digit_char(n)];
        assert(s.drop_last() =~= Seq::<char>::empty());
        reveal_with_fuel(digits_value, 2);
        assert(s.last() == digit_char(n));
    } else {
        lemma_decimal_digits(n / 10);
        let s = decimal(n / 10).push(digit_char(n % 10));
        assert(s.drop_last() =~= decimal(n / 10));
        assert(s.last() == digit_char(n % 10));
    }
}

/// Appends characters `from..to` of a list to a text.
pub fn append_chars(out: &mut String, chars: &Vec<char>, from: usize, to: usize)
    requires
        from <= to <= chars@.len(),
    ensures
        final(out)@ == old(out)@ + chars@.subrange(from as int, to as int),
{
    let mut i: usize = from;
    assert(chars@.subrange(from as int, from as int) =~= Seq::<char>::empty());
    assert(out@ =~= out@ + Seq::<char>::empty());
    while i < to
        invariant
            from <= i <= to <= chars@.len(),
            out@ == old(out)@ + chars@.subrange(from as int, i as int),
        decreases to - i,
    {
        out.push(chars[i]);
        assert(chars@.subrange(from as int, i + 1) =~= chars@.subrange(from as int, i as int).push(
            chars@[i as int],
        ));
        assert(old(out)@ + chars@.subrange(from as int, i + 1) =~= (old(out)@ + chars@.subrange(
            from as int,
            i as int,
        )).push(chars@[i as int]));
        i = i + 1;
    }
}

/// The text without `prefix`, when it starts with it.
pub fn strip_prefix(text: &str, prefix: &str) -> (rest: Option<String>)
    ensures
        match rest {
            Some(rest) => text@ == prefix@ + rest@,
            None => !prefix@.is_prefix_of(text@),
        },
{
    let chars = char_list(text);
    let lead = char_list(prefix);
    if lead.len() > chars.len() {
        return None;
    }
    let mut i: usize = 0;
    while i < lead.len()
        invariant
            i <= lead.len() <= chars.len(),
            chars@ == text@,
            lead@ == prefix@,
            forall|k: int| 0 <= k < i ==> lead@[k] == chars@[k],
        decreases lead.len() - i,
    {
        if lead[i] != chars[i] {
            return None;
        }
        i = i + 1;
    }
    let mut rest = String::new();
    append_chars(&mut rest, &chars, lead.len(), chars.len());
    assert(text@ =~= prefix@ + rest@);
    Some(rest)
}

} // verus!
