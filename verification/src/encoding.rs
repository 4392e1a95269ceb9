//! Numbers and texts written down as bytes, and the laws by which reading
//! gives them back.
//!
//! Nothing here runs: the functions say which bytes hold a value, and the
//! proofs say that the readers of the byte cursor find the value in them.

use crate::reader::{
    be_i16, be_i32, be_i64, be_u16, be_u24, be_u32, be_u64, bytes_at, nul_offset, readable, u8_at,
};
use crate::text::{lossy_text, without_trailing_nuls};
use vstd::arithmetic::div_mod::lemma_fundamental_div_mod_converse;
use vstd::arithmetic::mul::{
    lemma_mul_basics, lemma_mul_inequality, lemma_mul_is_commutative, lemma_mul_is_distributive_add,
    lemma_mul_nonnegative,
};
use vstd::prelude::*;
use vstd::utf8::{
    decode_utf8, encode_utf8, encode_utf8_decode_utf8, encode_utf8_valid_utf8, valid_utf8,
};

verus! {

/// The two bytes that hold `v`, most significant first.
pub open spec fn u16_bytes(v: u16) -> Seq<u8> {
    seq![(v / 0x100) as u8, (v % 0x100) as u8]
}

/// The three bytes that hold `v`, most significant first, for a number under
/// 2^24.
pub open spec fn u24_bytes(v: u32) -> Seq<u8> {
    seq![(v / 0x1_0000) as u8, ((v / 0x100) % 0x100) as u8, (v % 0x100) as u8]
}

/// The four bytes that hold `v`, most significant first.
pub open spec fn u32_bytes(v: u32) -> Seq<u8> {
    seq![
        (v / 0x100_0000) as u8,
        ((v / 0x1_0000) % 0x100) as u8,
        ((v / 0x100) % 0x100) as u8,
        (v % 0x100) as u8,
    ]
}

/// The eight bytes that hold `v`, most significant first.
pub open spec fn u64_bytes(v: u64) -> Seq<u8> {
    u32_bytes((v / 0x1_0000_0000) as u32) + u32_bytes((v % 0x1_0000_0000) as u32)
}

/// The unsigned number with the same sixteen bits as `v`.
pub open spec fn unsigned16(v: i16) -> u16 {
    if v < 0 {
        (v + 0x1_0000) as u16
    } else {
        v as u16
    }
}

/// The unsigned number with the same thirty-two bits as `v`.
pub open spec fn unsigned32(v: i32) -> u32 {
    if v < 0 {
        (v + 0x1_0000_0000) as u32
    } else {
        v as u32
    }
}

/// The unsigned number with the same sixty-four bits as `v`.
pub open spec fn unsigned64(v: i64) -> u64 {
    if v < 0 {
        (v + 0x1_0000_0000_0000_0000) as u64
    } else {
        v as u64
    }
}

/// `count` zero bytes.
pub open spec fn zero_bytes(count: nat) -> Seq<u8> {
    Seq::new(count, |i: int| 0u8)
}

/// Whether `data` holds the bytes `part` at offset `at`.
pub open spec fn holds(data: Seq<u8>, at: int, part: Seq<u8>) -> bool {
    0 <= at && at + part.len() <= data.len() && bytes_at(data, at, part.len() as int) == part
}

/// Where `data` holds a whole, it holds each part of it: the `len` bytes of
/// `whole` from offset `from` on stand in `data` at offset `at + from`.
pub proof fn holds_part(data: Seq<u8>, at: int, whole: Seq<u8>, from: int, len: int)
    requires
        holds(data, at, whole),
        0 <= from,
        0 <= len,
        from + len <= whole.len(),
    ensures
        holds(data, at + from, whole.subrange(from, from + len)),
{
    let part = whole.subrange(from, from + len);
    assert forall|i: int| 0 <= i < len implies data[at + from + i] == part[i] by {
        assert(bytes_at(data, at, whole.len() as int)[from + i] == whole[from + i]);
    }
    assert(bytes_at(data, at + from, len) =~= part);
}

/// Where `data` holds two parts joined, it holds the first at the same offset
/// and the second right after it.
pub proof fn holds_both(data: Seq<u8>, at: int, first: Seq<u8>, second: Seq<u8>)
    requires
        holds(data, at, first + second),
    ensures
        holds(data, at, first),
        holds(data, at + first.len(), second),
{
    let whole = first + second;
    assert(whole.subrange(0, first.len() as int) =~= first);
    assert(whole.subrange(first.len() as int, whole.len() as int) =~= second);
    holds_part(data, at, whole, 0, first.len() as int);
    holds_part(data, at, whole, first.len() as int, second.len() as int);
}

/// `count` rows of `stride` bytes each, one after another; `row` gives the
/// bytes of the row at an index.
pub open spec fn rows_bytes(count: nat, stride: nat, row: spec_fn(int) -> Seq<u8>) -> Seq<u8> {
    Seq::new(count * stride, |j: int| row(j / stride as int)[j % stride as int])
}

/// Where `data` holds rows, it holds each row at its place.
pub proof fn holds_row(data: Seq<u8>, at: int, count: nat, stride: nat, row: spec_fn(int) -> Seq<u8>, i: int)
    requires
        stride > 0,
        0 <= i < count,
        row(i).len() == stride,
        holds(data, at, rows_bytes(count, stride, row)),
    ensures
        holds(data, at + stride * i, row(i)),
        stride * i + stride <= count * stride,
{
    let whole = rows_bytes(count, stride, row);
    let d = stride as int;
    let start = d * i;
    lemma_mul_is_commutative(d, i);
    lemma_mul_is_commutative(d, count as int);
    lemma_mul_nonnegative(d, i);
    lemma_mul_is_distributive_add(d, i, 1);
    lemma_mul_basics(d);
    lemma_mul_inequality(i + 1, count as int, d);
    assert(start + d == (i + 1) * d) by {
        lemma_mul_is_commutative(d, i + 1);
    }
    assert(0 <= start && start + d <= count * d);
    assert forall|j: int| 0 <= j < d implies whole[start + j] == (#[trigger] row(i)[j]) by {
        lemma_fundamental_div_mod_converse(start + j, d, i, j);
    }
    assert(whole.subrange(start, start + d) =~= row(i));
    holds_part(data, at, whole, start, d);
}

/// A text whose UTF-8 bytes stand in `data` is read back by lossy decoding.
pub proof fn reads_back_text(data: Seq<u8>, at: int, text: Seq<char>)
    requires
        holds(data, at, encode_utf8(text)),
    ensures
        lossy_text(bytes_at(data, at, encode_utf8(text).len() as int)) == text,
        valid_utf8(bytes_at(data, at, encode_utf8(text).len() as int)),
        decode_utf8(bytes_at(data, at, encode_utf8(text).len() as int)) == text,
        readable(data, at, encode_utf8(text).len() as int),
{
    encode_utf8_valid_utf8(text);
    encode_utf8_decode_utf8(text);
}

/// Whether no byte of `bytes` is zero.
pub open spec fn without_nul(bytes: Seq<u8>) -> bool {
    forall|i: int| 0 <= i < bytes.len() ==> #[trigger] bytes[i] != 0
}

/// Bytes without a zero byte that stand in `data` before a zero byte end at
/// the first zero byte found from their offset on.
pub proof fn nul_ends_bytes(data: Seq<u8>, at: int, bytes: Seq<u8>)
    requires
        without_nul(bytes),
        holds(data, at, bytes + seq![0u8]),
    ensures
        nul_offset(data, at) == at + bytes.len(),
        holds(data, at, bytes),
    decreases bytes.len(),
{
    holds_both(data, at, bytes, seq![0u8]);
    let whole = bytes + seq![0u8];
    assert(bytes_at(data, at, whole.len() as int)[0] == whole[0]);
    if bytes.len() == 0 {
        assert(data[at] == 0);
    } else {
        assert(data[at] == bytes[0]);
        let rest = bytes.subrange(1, bytes.len() as int);
        assert(whole.subrange(1, whole.len() as int) =~= rest + seq![0u8]);
        holds_part(data, at, whole, 1, whole.len() - 1);
        assert forall|i: int| 0 <= i < rest.len() implies #[trigger] rest[i] != 0 by {
            assert(rest[i] == bytes[i + 1]);
        }
        nul_ends_bytes(data, at + 1, rest);
    }
}

/// Whether `bytes` does not end with a zero byte.
pub open spec fn ends_without_nul(bytes: Seq<u8>) -> bool {
    bytes.len() == 0 || bytes.last() != 0
}

/// Zero bytes written after bytes that do not end with a zero byte are
/// dropped again with the zero bytes at the end: what is left is the bytes.
pub proof fn padding_is_dropped(bytes: Seq<u8>, padding: nat)
    requires
        ends_without_nul(bytes),
    ensures
        without_trailing_nuls(bytes + zero_bytes(padding)) == bytes,
    decreases padding,
{
    let whole = bytes + zero_bytes(padding);
    if padding == 0 {
        assert(whole =~= bytes);
    } else {
        assert(whole.last() == 0);
        assert(whole.drop_last() =~= bytes + zero_bytes((padding - 1) as nat));
        padding_is_dropped(bytes, (padding - 1) as nat);
    }
}

/// A text whose UTF-8 bytes stand in `data` before zero bytes is read back
/// from the bytes and the zero bytes together, once the zero bytes at the end
/// are dropped.
pub proof fn reads_back_padded_text(data: Seq<u8>, at: int, text: Seq<char>, padding: nat)
    requires
        ends_without_nul(encode_utf8(text)),
        holds(data, at, encode_utf8(text) + zero_bytes(padding)),
    ensures
        readable(data, at, (encode_utf8(text).len() + padding) as int),
        without_trailing_nuls(bytes_at(data, at, (encode_utf8(text).len() + padding) as int)) == encode_utf8(
            text,
        ),
        valid_utf8(encode_utf8(text)),
        decode_utf8(encode_utf8(text)) == text,
        lossy_text(encode_utf8(text)) == text,
{
    padding_is_dropped(encode_utf8(text), padding);
    encode_utf8_valid_utf8(text);
    encode_utf8_decode_utf8(text);
}

/// A byte that stands in `data` is read back.
pub proof fn reads_back_u8(data: Seq<u8>, at: int, v: u8)
    requires
        holds(data, at, seq![v]),
    ensures
        u8_at(data, at) == v,
        readable(data, at, 1),
{
    assert(bytes_at(data, at, 1)[0] == v);
}

/// A 16-bit number whose bytes stand in `data` is read back.
pub proof fn reads_back_u16(data: Seq<u8>, at: int, v: u16)
    requires
        holds(data, at, u16_bytes(v)),
    ensures
        be_u16(data, at) == v,
        readable(data, at, 2),
{
    let b = bytes_at(data, at, 2);
    assert(b[0] == data[at] && b[1] == data[at + 1]);
}

/// A 24-bit number whose bytes stand in `data` is read back.
pub proof fn reads_back_u24(data: Seq<u8>, at: int, v: u32)
    requires
        v < 0x100_0000,
        holds(data, at, u24_bytes(v)),
    ensures
        be_u24(data, at) == v,
        readable(data, at, 3),
{
    let b = bytes_at(data, at, 3);
    assert(b[0] == data[at] && b[1] == data[at + 1] && b[2] == data[at + 2]);
}

/// A 32-bit number whose bytes stand in `data` is read back.
pub proof fn reads_back_u32(data: Seq<u8>, at: int, v: u32)
    requires
        holds(data, at, u32_bytes(v)),
    ensures
        be_u32(data, at) == v,
        readable(data, at, 4),
{
    let b = bytes_at(data, at, 4);
    assert(b[0] == data[at] && b[1] == data[at + 1] && b[2] == data[at + 2] && b[3] == data[at + 3]);
}

/// A 64-bit number whose bytes stand in `data` is read back.
pub proof fn reads_back_u64(data: Seq<u8>, at: int, v: u64)
    requires
        holds(data, at, u64_bytes(v)),
    ensures
        be_u64(data, at) == v,
        readable(data, at, 8),
{
    let hi = (v / 0x1_0000_0000) as u32;
    let lo = (v % 0x1_0000_0000) as u32;
    assert(u64_bytes(v).subrange(0, 4) =~= u32_bytes(hi));
    assert(u64_bytes(v).subrange(4, 8) =~= u32_bytes(lo));
    holds_part(data, at, u64_bytes(v), 0, 4);
    holds_part(data, at, u64_bytes(v), 4, 4);
    reads_back_u32(data, at, hi);
    reads_back_u32(data, at + 4, lo);
}

/// A signed 16-bit number whose bytes stand in `data` is read back.
pub proof fn reads_back_i16(data: Seq<u8>, at: int, v: i16)
    requires
        holds(data, at, u16_bytes(unsigned16(v))),
    ensures
        be_i16(data, at) == v,
        readable(data, at, 2),
{
    reads_back_u16(data, at, unsigned16(v));
}

/// A signed 32-bit number whose bytes stand in `data` is read back.
pub proof fn reads_back_i32(data: Seq<u8>, at: int, v: i32)
    requires
        holds(data, at, u32_bytes(unsigned32(v))),
    ensures
        be_i32(data, at) == v,
        readable(data, at, 4),
{
    reads_back_u32(data, at, unsigned32(v));
}

/// A signed 64-bit number whose bytes stand in `data` is read back.
pub proof fn reads_back_i64(data: Seq<u8>, at: int, v: i64)
    requires
        holds(data, at, u64_bytes(unsigned64(v))),
    ensures
        be_i64(data, at) == v,
        readable(data, at, 8),
{
    reads_back_u64(data, at, unsigned64(v));
}

} // verus!
