//! Text rendering of numbers and lists, and the decoding of bytes into text.
//!
//! Every renderer comes as a pair: a spec function that says which characters
//! the text consists of, and an executable function proved to produce them.

use vstd::prelude::*;
use vstd::string::StringExecFns;
use vstd::utf8::{decode_utf8, valid_utf8};

verus! {

/// The character of one digit in base 10 or 16, lower case.
pub open spec fn digit_char(d: int) -> char {
    if d == 0 {
        '0'
    } else if d == 1 {
        '1'
    } else if d == 2 {
        '2'
    } else if d == 3 {
        '3'
    } else if d == 4 {
        '4'
    } else if d == 5 {
        '5'
    } else if d == 6 {
        '6'
    } else if d == 7 {
        '7'
    } else if d == 8 {
        '8'
    } else if d == 9 {
        '9'
    } else if d == 10 {
        'a'
    } else if d == 11 {
        'b'
    } else if d == 12 {
        'c'
    } else if d == 13 {
        'd'
    } else if d == 14 {
        'e'
    } else {
        'f'
    }
}

/// Decimal digits of `n`, most significant first, without leading zeros.
pub open spec fn decimal(n: nat) -> Seq<char>
    decreases n,
{
    if n < 10 {
        seq![digit_char(n as int)]
    } else {
        decimal(n / 10).push(digit_char((n % 10) as int))
    }
}

/// Decimal text of a signed number: a minus sign before the digits of a
/// negative one.
pub open spec fn signed_decimal(v: int) -> Seq<char> {
    if v < 0 {
        seq!['-'] + decimal((-v) as nat)
    } else {
        decimal(v as nat)
    }
}

/// Hexadecimal digits of `n`, lower case, padded with zeros on the left to at
/// least `width` digits.
pub open spec fn hex(n: nat, width: nat) -> Seq<char>
    decreases n, width,
{
    if n < 16 && width <= 1 {
        seq![digit_char(n as int)]
    } else {
        hex(n / 16, if width == 0 { 0 } else { (width - 1) as nat }).push(digit_char((n % 16) as int))
    }
}

/// `prefix` followed by the hexadecimal digits of `n`.
pub open spec fn prefixed_hex(prefix: Seq<char>, n: nat, width: nat) -> Seq<char> {
    prefix + hex(n, width)
}

/// The digits after the decimal point of `f / 65536`, at most `limit` of them,
/// stopping as soon as nothing is left.
pub open spec fn fraction_digits(f: nat, limit: nat) -> Seq<char>
    decreases limit,
{
    if limit == 0 || f == 0 {
        Seq::empty()
    } else {
        seq![digit_char(((f * 10) / 65536) as int)] + fraction_digits((f * 10) % 65536, (limit - 1) as nat)
    }
}

/// Text of the 16.16 fixed-point number whose raw value is `raw`: the value
/// `raw / 65536` written out exactly, with a decimal point only where there is
/// a fractional part.
pub open spec fn fixed_point(raw: int) -> Seq<char> {
    let magnitude = if raw < 0 { -raw } else { raw };
    let whole = decimal((magnitude / 65536) as nat);
    let fraction = (magnitude % 65536) as nat;
    let sign = if raw < 0 { seq!['-'] } else { Seq::<char>::empty() };
    if fraction == 0 {
        sign + whole
    } else {
        sign + whole + seq!['.'] + fraction_digits(fraction, 16)
    }
}

/// The items one after another, `separator` between each two.
pub open spec fn joined(items: Seq<Seq<char>>, separator: Seq<char>) -> Seq<char>
    decreases items.len(),
{
    if items.len() == 0 {
        Seq::empty()
    } else if items.len() == 1 {
        items[0]
    } else {
        joined(items.drop_last(), separator) + separator + items.last()
    }
}

/// The items separated by a comma and a space, inside square brackets.
pub open spec fn bracketed(items: Seq<Seq<char>>) -> Seq<char> {
    "["@ + joined(items, ", "@) + "]"@
}

/// The views of the strings of `items`.
pub open spec fn string_views(items: Seq<String>) -> Seq<Seq<char>> {
    Seq::new(items.len(), |i: int| items[i]@)
}

/// What lossy UTF-8 decoding makes of bytes that are not valid UTF-8: their
/// text, with each invalid sequence replaced by U+FFFD.
pub uninterp spec fn replaced_text(bytes: Seq<u8>) -> Seq<char>;

/// The text of `bytes` under lossy UTF-8 decoding: the characters they encode
/// where they are valid UTF-8, the text with replacements where they are not.
pub open spec fn lossy_text(bytes: Seq<u8>) -> Seq<char> {
    if valid_utf8(bytes) {
        decode_utf8(bytes)
    } else {
        replaced_text(bytes)
    }
}

/// `bytes` without the zero bytes at its end.
pub open spec fn without_trailing_nuls(bytes: Seq<u8>) -> Seq<u8>
    decreases bytes.len(),
{
    if bytes.len() > 0 && bytes.last() == 0 {
        without_trailing_nuls(bytes.drop_last())
    } else {
        bytes
    }
}

/// `String::from_utf8_lossy`, made into an owned string.  Claims that valid
/// UTF-8 decodes to the characters it encodes, and that the text made of
/// other bytes is a function of the bytes alone.
#[verifier::external_body]
pub(crate) fn string_from_utf8_lossy(bytes: &[u8]) -> (s: String)
    ensures
        s@ == lossy_text(bytes@),
        !valid_utf8(bytes@) ==> s@ == replaced_text(bytes@),
{
    String::from_utf8_lossy(bytes).into_owned()
}

/// `String::from_utf8`.  Claims that it succeeds exactly on valid UTF-8 and
/// then yields the characters encoded.
#[verifier::external_body]
pub(crate) fn string_from_utf8(bytes: Vec<u8>) -> (r: Option<String>)
    ensures
        r is Some <==> valid_utf8(bytes@),
        r matches Some(s) ==> s@ == decode_utf8(bytes@),
{
    String::from_utf8(bytes).ok()
}

/// `str::from_utf8` on four bytes.  Claims that it succeeds exactly on valid
/// UTF-8 and then yields the characters encoded.
#[verifier::external_body]
pub(crate) fn str_from_utf8(bytes: &[u8; 4]) -> (r: Option<&str>)
    ensures
        r is Some <==> valid_utf8(bytes@),
        r matches Some(s) ==> s@ == decode_utf8(bytes@),
{
    std::str::from_utf8(bytes).ok()
}

/// Drops the zero bytes at the end of `bytes`.
pub fn strip_trailing_nuls(bytes: &mut Vec<u8>)
    ensures
        final(bytes)@ == without_trailing_nuls(old(bytes)@),
{
    while bytes.len() > 0 && bytes[bytes.len() - 1] == 0
        invariant
            without_trailing_nuls(bytes@) == without_trailing_nuls(old(bytes)@),
        decreases bytes.len(),
    {
        proof {
            assert(bytes@.last() == 0);
        }
        let ghost before = bytes@;
        bytes.pop();
        assert(bytes@ =~= before.drop_last());
    }
    proof {
        assert(bytes@.len() > 0 ==> bytes@.last() != 0);
        assert(without_trailing_nuls(bytes@) == bytes@);
    }
}

/// The one-character text of a digit; every number above fifteen counts as
/// fifteen.
pub fn digit_str(d: u8) -> (s: &'static str)
    ensures
        s@ == seq![digit_char(d as int)],
{
    proof {
        reveal_strlit("0");
        reveal_strlit("1");
        reveal_strlit("2");
        reveal_strlit("3");
        reveal_strlit("4");
        reveal_strlit("5");
        reveal_strlit("6");
        reveal_strlit("7");
        reveal_strlit("8");
        reveal_strlit("9");
        reveal_strlit("a");
        reveal_strlit("b");
        reveal_strlit("c");
        reveal_strlit("d");
        reveal_strlit("e");
        reveal_strlit("f");
    }
    let s: &'static str = match d {
        0 => "0",
        1 => "1",
        2 => "2",
        3 => "3",
        4 => "4",
        5 => "5",
        6 => "6",
        7 => "7",
        8 => "8",
        9 => "9",
        10 => "a",
        11 => "b",
        12 => "c",
        13 => "d",
        14 => "e",
        _ => "f",
    };
    assert(s@ =~= seq![digit_char(d as int)]);
    s
}

/// Decimal text of `n`.
pub fn u64_to_string(n: u64) -> (s: String)
    ensures
        s@ == decimal(n as nat),
    decreases n,
{
    if n < 10 {
        String::from_str(digit_str(n as u8))
    } else {
        let mut s = u64_to_string(n / 10);
        s.append(digit_str((n % 10) as u8));
        assert(s@ =~= decimal(n as nat));
        s
    }
}

/// Decimal text of `v`, with a minus sign where it is negative.
pub fn i64_to_string(v: i64) -> (s: String)
    ensures
        s@ == signed_decimal(v as int),
{
    if v < 0 {
        let magnitude: u64 = ((-(v + 1)) as u64) + 1;
        let mut s = String::from_str("-");
        proof {
            reveal_strlit("-");
        }
        let digits = u64_to_string(magnitude);
        s.append(digits.as_str());
        assert(s@ =~= signed_decimal(v as int));
        s
    } else {
        u64_to_string(v as u64)
    }
}

/// Hexadecimal text of `n`, padded with zeros to at least `width` digits.
pub fn u64_to_hex(n: u64, width: u8) -> (s: String)
    ensures
        s@ == hex(n as nat, width as nat),
    decreases n, width,
{
    if n < 16 && width <= 1 {
        String::from_str(digit_str(n as u8))
    } else {
        let rest: u8 = if width == 0 { 0 } else { width - 1 };
        let mut s = u64_to_hex(n / 16, rest);
        s.append(digit_str((n % 16) as u8));
        assert(s@ =~= hex(n as nat, width as nat));
        s
    }
}

/// `prefix`, then the hexadecimal text of `n` padded to `width` digits.
pub fn prefixed_hex_string(prefix: &str, n: u64, width: u8) -> (s: String)
    ensures
        s@ == prefixed_hex(prefix@, n as nat, width as nat),
{
    let mut s = String::from_str(prefix);
    let digits = u64_to_hex(n, width);
    s.append(digits.as_str());
    s
}

/// The three texts one after another.
pub fn concat3(a: &str, b: &str, c: &str) -> (s: String)
    ensures
        s@ == a@ + b@ + c@,
{
    let mut s = String::from_str(a);
    s.append(b);
    s.append(c);
    s
}

/// The digits after the decimal point of `f / 65536`.
fn fraction_digits_string(f: u32, limit: u8) -> (s: String)
    requires
        f < 65536,
    ensures
        s@ == fraction_digits(f as nat, limit as nat),
    decreases limit,
{
    if limit == 0 || f == 0 {
        String::new()
    } else {
        let scaled: u32 = f * 10;
        let mut s = String::from_str(digit_str((scaled / 65536) as u8));
        let rest = fraction_digits_string(scaled % 65536, limit - 1);
        s.append(rest.as_str());
        s
    }
}

/// Text of the 16.16 fixed-point number with raw value `raw`.
pub fn fixed_point_string(raw: i32) -> (s: String)
    ensures
        s@ == fixed_point(raw as int),
{
    let magnitude: u64 = if raw < 0 { ((-(raw as i64)) as u64) } else { raw as u64 };
    let mut s = if raw < 0 { String::from_str("-") } else { String::new() };
    proof {
        reveal_strlit("-");
        reveal_strlit(".");
    }
    let whole = u64_to_string(magnitude / 65536);
    s.append(whole.as_str());
    let fraction: u32 = (magnitude % 65536) as u32;
    if fraction != 0 {
        s.append(".");
        let digits = fraction_digits_string(fraction, 16);
        s.append(digits.as_str());
    }
    assert(s@ =~= fixed_point(raw as int));
    s
}

/// The items one after another, `separator` between each two.
pub fn join(items: &Vec<String>, separator: &str) -> (s: String)
    ensures
        s@ == joined(string_views(items@), separator@),
{
    let mut s = String::new();
    let mut i: usize = 0;
    while i < items.len()
        invariant
            i <= items.len(),
            s@ == joined(string_views(items@).take(i as int), separator@),
        decreases items.len() - i,
    {
        proof {
            let all = string_views(items@);
            assert(all.take(i + 1).drop_last() =~= all.take(i as int));
            assert(all.take(i + 1).last() == items@[i as int]@);
        }
        if i > 0 {
            s.append(separator);
        }
        s.append(items[i].as_str());
        i = i + 1;
    }
    proof {
        assert(string_views(items@).take(i as int) =~= string_views(items@));
    }
    s
}

/// The items separated by a comma and a space, inside square brackets.
pub fn bracketed_string(items: &Vec<String>) -> (s: String)
    ensures
        s@ == bracketed(string_views(items@)),
{
    let inner = join(items, ", ");
    concat3("[", inner.as_str(), "]")
}

} // verus!
