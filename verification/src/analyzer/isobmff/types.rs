//! Small value types of the box format: the four-character code, fixed-point
//! numbers, the transformation matrix and time stamps.

use crate::text::{
    bracketed, bracketed_string, decimal, fixed_point, fixed_point_string, i64_to_string,
    signed_decimal, str_from_utf8, u64_to_string,
};
use crate::encoding::{holds, holds_part, reads_back_i32, u32_bytes, unsigned32};
use crate::reader::{be_i32, readable};
use vstd::prelude::*;
use vstd::utf8::{
    decode_utf8, encode_utf8, encode_utf8_decode_utf8, encode_utf8_valid_utf8, is_ascii_chars,
    is_ascii_chars_encode_utf8, valid_utf8,
};

verus! {

/// Whether every byte of a code is a printable character: a letter, a digit,
/// a sign or the space, from 0x20 to 0x7E.
pub open spec fn printable(code: Seq<u8>) -> bool {
    forall|i: int| 0 <= i < code.len() ==> 0x20 <= #[trigger] code[i] <= 0x7e
}

/// The characters that the bytes of a code stand for, one for each byte.
pub open spec fn code_chars(code: Seq<u8>) -> Seq<char> {
    Seq::new(code.len(), |i: int| code[i] as char)
}

/// Text of a four-character code: its characters where all of them are
/// printable, four question marks otherwise.
pub open spec fn fourcc_text(code: Seq<u8>) -> Seq<char> {
    if printable(code) {
        code_chars(code)
    } else {
        "????"@
    }
}

/// A printable code is valid UTF-8 and decodes to its characters.
pub proof fn printable_code_is_text(code: Seq<u8>)
    requires
        printable(code),
    ensures
        valid_utf8(code),
        decode_utf8(code) == code_chars(code),
        encode_utf8(code_chars(code)) == code,
{
    let chars = code_chars(code);
    assert(is_ascii_chars(chars)) by {
        assert forall|i: int| 0 <= i < chars.len() implies '\0' <= #[trigger] chars[i] <= '\u{7f}' by {
            assert(0x20 <= code[i] <= 0x7e);
        }
    }
    is_ascii_chars_encode_utf8(chars);
    assert(encode_utf8(chars) =~= code) by {
        assert forall|i: int| 0 <= i < code.len() implies encode_utf8(chars)[i] == code[i] by {
            assert(chars[i] as u8 == encode_utf8(chars)[i]);
            assert(0x20 <= code[i] <= 0x7e);
        }
    }
    encode_utf8_valid_utf8(chars);
    encode_utf8_decode_utf8(chars);
}

/// The text of the four bytes of a code.
pub fn fourcc_str(bytes: &[u8; 4]) -> (s: &str)
    ensures
        s@ == fourcc_text(bytes@),
{
    let mut i: usize = 0;
    while i < 4
        invariant
            i <= 4,
            forall|j: int| 0 <= j < i ==> 0x20 <= #[trigger] bytes@[j] <= 0x7e,
        decreases 4 - i,
    {
        if bytes[i] < 0x20 || bytes[i] > 0x7e {
            return "????";
        }
        i = i + 1;
    }
    proof {
        printable_code_is_text(bytes@);
    }
    match str_from_utf8(bytes) {
        Some(s) => s,
        None => "????",
    }
}

/// The four-character code written with the characters given, as bytes.
pub open spec fn code_of(a: char, b: char, c: char, d: char) -> Seq<u8> {
    seq![a as u8, b as u8, c as u8, d as u8]
}

/// Box type identifier (4 characters).
#[derive(Debug, Clone, Copy, Eq, PartialEq)]
pub struct BoxType(pub [u8; 4]);

impl View for BoxType {
    type V = Seq<u8>;

    open spec fn view(&self) -> Seq<u8> {
        self.0@
    }
}

impl BoxType {
    /// A box type with the four bytes given.
    pub fn new(value: [u8; 4]) -> (t: BoxType)
        ensures
            t@ == value@,
    {
        BoxType(value)
    }

    /// The code as text.
    pub fn as_str(&self) -> (s: &str)
        ensures
            s@ == fourcc_text(self@),
    {
        fourcc_str(&self.0)
    }

    /// Whether the code is written with the four characters given.
    pub fn is(&self, a: char, b: char, c: char, d: char) -> (r: bool)
        ensures
            r == (self@ == code_of(a, b, c, d)),
    {
        let r = self.0[0] == a as u8 && self.0[1] == b as u8 && self.0[2] == c as u8 && self.0[3]
            == d as u8;
        proof {
            if r {
                assert(self@ =~= code_of(a, b, c, d));
            } else {
                assert(code_of(a, b, c, d)[0] == a as u8);
                assert(code_of(a, b, c, d)[1] == b as u8);
                assert(code_of(a, b, c, d)[2] == c as u8);
                assert(code_of(a, b, c, d)[3] == d as u8);
            }
        }
        r
    }
}

/// Fixed-point number with sixteen fractional bits.
#[derive(Debug, Clone, Copy, PartialEq, Eq, Structural)]
pub struct Fixed16_16(pub i32);

impl Fixed16_16 {
    /// The fixed-point number with the raw value given.
    pub fn new(value: i32) -> (f: Fixed16_16)
        ensures
            f.0 == value,
    {
        Fixed16_16(value)
    }

    /// The number written out exactly.
    pub fn to_text(&self) -> (s: String)
        ensures
            s@ == fixed_point(self.0 as int),
    {
        fixed_point_string(self.0)
    }
}

/// Matrix for video transformation.
#[derive(Debug, Clone)]
pub struct Matrix {
    pub values: [i32; 9],
}

/// The bytes of the numbers of `values`, four for each, one number after
/// another.
pub open spec fn number_bytes(values: Seq<i32>) -> Seq<u8> {
    Seq::new(4 * values.len(), |j: int| u32_bytes(unsigned32(values[j / 4]))[j % 4])
}

/// Numbers whose bytes stand in `data` are read back, each at four bytes
/// after the one before it.
pub proof fn numbers_read_back(data: Seq<u8>, at: int, values: Seq<i32>)
    requires
        holds(data, at, number_bytes(values)),
    ensures
        readable(data, at, 4 * (values.len() as int)),
        forall|i: int| 0 <= i < values.len() ==> be_i32(data, at + 4 * i) == values[i],
{
    let whole = number_bytes(values);
    assert forall|i: int| 0 <= i < values.len() implies be_i32(data, at + 4 * i) == values[i] by {
        let part = u32_bytes(unsigned32(values[i]));
        assert(whole.subrange(4 * i, 4 * i + 4) =~= part) by {
            assert forall|j: int| 0 <= j < 4 implies whole[4 * i + j] == part[j] by {
                assert((4 * i + j) / 4 == i && (4 * i + j) % 4 == j);
            }
        }
        holds_part(data, at, whole, 4 * i, 4);
        reads_back_i32(data, at + 4 * i, values[i]);
    }
}

/// The numbers of `values` as decimal texts.
pub open spec fn number_texts(values: Seq<i32>) -> Seq<Seq<char>> {
    Seq::new(values.len(), |i: int| signed_decimal(values[i] as int))
}

impl View for Matrix {
    type V = Seq<i32>;

    open spec fn view(&self) -> Seq<i32> {
        self.values@
    }
}

impl Matrix {
    /// The matrix with the nine numbers given.
    pub fn new(values: [i32; 9]) -> (m: Matrix)
        ensures
            m@ == values@,
    {
        Matrix { values }
    }

    /// The nine numbers in square brackets.
    pub fn to_text(&self) -> (s: String)
        ensures
            s@ == bracketed(number_texts(self@)),
    {
        let mut items: Vec<String> = Vec::new();
        let mut i: usize = 0;
        while i < 9
            invariant
                i <= 9,
                items@.len() == i,
                forall|j: int| 0 <= j < i ==> items@[j]@ == signed_decimal(self.values@[j] as int),
            decreases 9 - i,
        {
            items.push(i64_to_string(self.values[i] as i64));
            i = i + 1;
        }
        proof {
            assert(crate::text::string_views(items@) =~= number_texts(self@));
        }
        bracketed_string(&items)
    }
}

/// Seconds between the start of 1904 and the start of 1970.
pub const EPOCH_SHIFT: u64 = 2082844800;

/// Creation and modification times, in seconds since the start of 1904.
#[derive(Debug, Clone, Copy, PartialEq, Eq, Structural)]
pub struct Mp4DateTime(pub u64);

impl Mp4DateTime {
    /// Seconds since the start of 1970, or zero for a time before that.
    pub open spec fn unix_seconds(self) -> nat {
        if self.0 >= EPOCH_SHIFT {
            (self.0 - EPOCH_SHIFT) as nat
        } else {
            0
        }
    }

    /// The time that many seconds after the start of 1904.
    pub fn new(seconds_since_1904: u64) -> (t: Mp4DateTime)
        ensures
            t.0 == seconds_since_1904,
    {
        Mp4DateTime(seconds_since_1904)
    }

    /// The time in seconds since the start of 1904.
    pub fn as_secs(&self) -> (s: u64)
        ensures
            s == self.0,
    {
        self.0
    }

    /// The time as decimal seconds since the start of 1970.
    pub fn to_text(&self) -> (s: String)
        ensures
            s@ == decimal(self.unix_seconds()),
    {
        let unix: u64 = if self.0 >= EPOCH_SHIFT { self.0 - EPOCH_SHIFT } else { 0 };
        u64_to_string(unix)
    }
}

} // verus!
