//! The byte cursor: sequential big-endian reads over a byte stream held in
//! memory, with an absolute position that may be moved freely.
//!
//! The position may stand beyond the end of the stream; only a read of at
//! least one byte from there fails.

use crate::error::{IoErrorKind, MediaError};
use crate::text::{
    lossy_text, string_from_utf8, string_from_utf8_lossy, strip_trailing_nuls,
    without_trailing_nuls,
};
use vstd::prelude::*;
use vstd::utf8::{decode_utf8, valid_utf8};

verus! {

/// Whether `len` bytes can be read at offset `at`.  Nothing is always
/// readable, wherever the offset stands.
pub open spec fn readable(data: Seq<u8>, at: int, len: int) -> bool {
    len == 0 || (0 <= at && 0 <= len && at + len <= data.len())
}

/// The `len` bytes of `data` that start at offset `at`.
pub open spec fn bytes_at(data: Seq<u8>, at: int, len: int) -> Seq<u8> {
    Seq::new(len as nat, |i: int| data[at + i])
}

/// The byte at offset `at`.
pub open spec fn u8_at(data: Seq<u8>, at: int) -> u8 {
    data[at]
}

/// Big-endian value of the two bytes at offset `at`.
pub open spec fn be_u16(data: Seq<u8>, at: int) -> u16 {
    (data[at] as int * 0x100 + data[at + 1] as int) as u16
}

/// Big-endian value of the three bytes at offset `at`.
pub open spec fn be_u24(data: Seq<u8>, at: int) -> u32 {
    (data[at] as int * 0x1_0000 + data[at + 1] as int * 0x100 + data[at + 2] as int) as u32
}

/// Big-endian value of the four bytes at offset `at`.
pub open spec fn be_u32(data: Seq<u8>, at: int) -> u32 {
    (be_u16(data, at) as int * 0x1_0000 + be_u16(data, at + 2) as int) as u32
}

/// Big-endian value of the eight bytes at offset `at`.
pub open spec fn be_u64(data: Seq<u8>, at: int) -> u64 {
    (be_u32(data, at) as int * 0x1_0000_0000 + be_u32(data, at + 4) as int) as u64
}

/// The signed number with the same sixteen bits as `v`.
pub open spec fn signed16(v: u16) -> i16 {
    if v < 0x8000 {
        v as i16
    } else {
        (v as int - 0x1_0000) as i16
    }
}

/// The signed number with the same thirty-two bits as `v`.
pub open spec fn signed32(v: u32) -> i32 {
    if v < 0x8000_0000 {
        v as i32
    } else {
        (v as int - 0x1_0000_0000) as i32
    }
}

/// The signed number with the same sixty-four bits as `v`.
pub open spec fn signed64(v: u64) -> i64 {
    if v < 0x8000_0000_0000_0000 {
        v as i64
    } else {
        (v as int - 0x1_0000_0000_0000_0000) as i64
    }
}

/// Big-endian signed value of the two bytes at offset `at`.
pub open spec fn be_i16(data: Seq<u8>, at: int) -> i16 {
    signed16(be_u16(data, at))
}

/// Big-endian signed value of the four bytes at offset `at`.
pub open spec fn be_i32(data: Seq<u8>, at: int) -> i32 {
    signed32(be_u32(data, at))
}

/// Big-endian signed value of the eight bytes at offset `at`.
pub open spec fn be_i64(data: Seq<u8>, at: int) -> i64 {
    signed64(be_u64(data, at))
}

/// Offset of the first zero byte at or after `at`, or the length of `data`
/// where there is none.
pub open spec fn nul_offset(data: Seq<u8>, at: int) -> int
    decreases data.len() - at,
{
    if at < 0 || at >= data.len() {
        data.len() as int
    } else if data[at] == 0 {
        at
    } else {
        nul_offset(data, at + 1)
    }
}

/// The signed number with the same sixteen bits as `v`.
pub fn to_i16(v: u16) -> (r: i16)
    ensures
        r == signed16(v),
{
    if v < 0x8000 {
        v as i16
    } else {
        ((v - 0x8000) as i16) + i16::MIN
    }
}

/// The signed number with the same thirty-two bits as `v`.
pub fn to_i32(v: u32) -> (r: i32)
    ensures
        r == signed32(v),
{
    if v < 0x8000_0000 {
        v as i32
    } else {
        ((v - 0x8000_0000) as i32) + i32::MIN
    }
}

/// The signed number with the same sixty-four bits as `v`.
pub fn to_i64(v: u64) -> (r: i64)
    ensures
        r == signed64(v),
{
    if v < 0x8000_0000_0000_0000 {
        v as i64
    } else {
        ((v - 0x8000_0000_0000_0000) as i64) + i64::MIN
    }
}

/// Where a seek goes: counted from the start, from the end, or from the
/// current position.
#[derive(Clone, Copy, Debug)]
pub enum SeekFrom {
    Start(u64),
    End(i64),
    Current(i64),
}

/// Sequential reader over a byte stream, big-endian.
pub struct Reader {
    data: Vec<u8>,
    position: u64,
}

impl Reader {
    /// The bytes of the stream.
    pub closed spec fn bytes(&self) -> Seq<u8> {
        self.data@
    }

    /// The current position, counted from the start of the stream.
    pub closed spec fn pos(&self) -> u64 {
        self.position
    }

    /// What a read of `len` bytes that decodes to `value` does: it succeeds
    /// and moves on by `len` where the bytes are there, and fails without
    /// moving where they are not.
    pub open spec fn reads<T>(pre: Reader, post: Reader, len: int, r: Result<T, MediaError>, value: T) -> bool {
        &&& post.bytes() == pre.bytes()
        &&& if readable(pre.bytes(), pre.pos() as int, len) {
            r == Ok::<T, MediaError>(value) && post.pos() == pre.pos() + len
        } else {
            r == Err::<T, MediaError>(MediaError::Io(IoErrorKind::UnexpectedEof)) && post.pos()
                == pre.pos()
        }
    }

    /// The position a seek to `target` arrives at, if it can be represented.
    pub open spec fn seek_target(&self, target: SeekFrom) -> Option<u64> {
        let wanted: int = match target {
            SeekFrom::Start(n) => n as int,
            SeekFrom::End(d) => self.bytes().len() + d,
            SeekFrom::Current(d) => self.pos() + d,
        };
        if 0 <= wanted <= u64::MAX {
            Some(wanted as u64)
        } else {
            None
        }
    }

    /// A reader at the start of `data`.
    pub fn new(data: Vec<u8>) -> (r: Reader)
        ensures
            r.bytes() == data@,
            r.pos() == 0,
    {
        Reader { data, position: 0 }
    }

    /// Whether `len` bytes are left at the current position.
    fn has(&self, len: u64) -> (b: bool)
        ensures
            b == readable(self.bytes(), self.pos() as int, len as int),
            b && len > 0 ==> self.pos() + len <= usize::MAX,
    {
        if len == 0 {
            true
        } else {
            let total: u64 = self.data.len() as u64;
            self.position <= total && total - self.position >= len
        }
    }

    /// Fills `buf` with the next bytes of the stream.
    pub fn read_exact(&mut self, buf: &mut [u8]) -> (r: Result<(), MediaError>)
        ensures
            Reader::reads(*old(self), *final(self), old(buf)@.len() as int, r, ()),
            final(buf)@.len() == old(buf)@.len(),
            r is Ok ==> final(buf)@ == bytes_at(old(self).bytes(), old(self).pos() as int, old(buf)@.len() as int),
            r is Err ==> final(buf)@ == old(buf)@,
    {
        let n: usize = buf.len();
        if !self.has(n as u64) {
            return Err(MediaError::Io(IoErrorKind::UnexpectedEof));
        }
        let mut i: usize = 0;
        while i < n
            invariant
                i <= n,
                n == buf@.len(),
                n > 0 ==> self.position + n <= self.data.len(),
                forall|j: int| 0 <= j < i ==> buf@[j] == self.data@[self.position + j],
            decreases n - i,
        {
            buf[i] = self.data[self.position as usize + i];
            i = i + 1;
        }
        proof {
            assert(buf@ =~= bytes_at(self.bytes(), self.pos() as int, n as int));
        }
        self.position = self.position + n as u64;
        Ok(())
    }

    /// The next `len` bytes of the stream.
    pub fn read_bytes(&mut self, len: u64) -> (r: Result<Vec<u8>, MediaError>)
        ensures
            final(self).bytes() == old(self).bytes(),
            r is Ok <==> readable(old(self).bytes(), old(self).pos() as int, len as int),
            r matches Ok(v) ==> v@ == bytes_at(old(self).bytes(), old(self).pos() as int, len as int)
                && final(self).pos() == old(self).pos() + len,
            r matches Err(e) ==> e == MediaError::Io(IoErrorKind::UnexpectedEof) && final(self).pos() == old(self).pos(),
    {
        if !self.has(len) {
            return Err(MediaError::Io(IoErrorKind::UnexpectedEof));
        }
        let mut out: Vec<u8> = Vec::new();
        let mut i: u64 = 0;
        while i < len
            invariant
                i <= len,
                len > 0 ==> self.position + len <= self.data.len(),
                out@.len() == i,
                forall|j: int| 0 <= j < i ==> out@[j] == self.data@[self.position + j],
            decreases len - i,
        {
            out.push(self.data[(self.position + i) as usize]);
            i = i + 1;
        }
        proof {
            assert(out@ =~= bytes_at(self.bytes(), self.pos() as int, len as int));
        }
        self.position = self.position + len;
        Ok(out)
    }

    /// Reads one byte.
    pub fn read_u8(&mut self) -> (r: Result<u8, MediaError>)
        ensures
            Reader::reads(*old(self), *final(self), 1, r, u8_at(old(self).bytes(), old(self).pos() as int)),
    {
        if !self.has(1) {
            return Err(MediaError::Io(IoErrorKind::UnexpectedEof));
        }
        let v: u8 = self.data[self.position as usize];
        self.position = self.position + 1;
        Ok(v)
    }

    /// Reads a 16-bit number, most significant byte first.
    pub fn read_u16(&mut self) -> (r: Result<u16, MediaError>)
        ensures
            Reader::reads(*old(self), *final(self), 2, r, be_u16(old(self).bytes(), old(self).pos() as int)),
    {
        if !self.has(2) {
            return Err(MediaError::Io(IoErrorKind::UnexpectedEof));
        }
        let p: usize = self.position as usize;
        let v: u16 = (self.data[p] as u16) * 0x100 + (self.data[p + 1] as u16);
        self.position = self.position + 2;
        Ok(v)
    }

    /// Reads a 24-bit number, most significant byte first.
    pub fn read_u24(&mut self) -> (r: Result<u32, MediaError>)
        ensures
            Reader::reads(*old(self), *final(self), 3, r, be_u24(old(self).bytes(), old(self).pos() as int)),
    {
        if !self.has(3) {
            return Err(MediaError::Io(IoErrorKind::UnexpectedEof));
        }
        let p: usize = self.position as usize;
        let v: u32 = (self.data[p] as u32) * 0x1_0000 + (self.data[p + 1] as u32) * 0x100 + (
        self.data[p + 2] as u32);
        self.position = self.position + 3;
        Ok(v)
    }

    /// Reads a 32-bit number, most significant byte first.
    pub fn read_u32(&mut self) -> (r: Result<u32, MediaError>)
        ensures
            Reader::reads(*old(self), *final(self), 4, r, be_u32(old(self).bytes(), old(self).pos() as int)),
    {
        if !self.has(4) {
            return Err(MediaError::Io(IoErrorKind::UnexpectedEof));
        }
        let p: usize = self.position as usize;
        let hi: u32 = (self.data[p] as u32) * 0x100 + (self.data[p + 1] as u32);
        let lo: u32 = (self.data[p + 2] as u32) * 0x100 + (self.data[p + 3] as u32);
        self.position = self.position + 4;
        Ok(hi * 0x1_0000 + lo)
    }

    /// Reads a 64-bit number, most significant byte first.
    pub fn read_u64(&mut self) -> (r: Result<u64, MediaError>)
        ensures
            Reader::reads(*old(self), *final(self), 8, r, be_u64(old(self).bytes(), old(self).pos() as int)),
    {
        if !self.has(8) {
            return Err(MediaError::Io(IoErrorKind::UnexpectedEof));
        }
        let hi: u32 = self.read_u32()?;
        let lo: u32 = self.read_u32()?;
        Ok((hi as u64) * 0x1_0000_0000 + (lo as u64))
    }

    /// Reads a signed 16-bit number, most significant byte first.
    pub fn read_i16(&mut self) -> (r: Result<i16, MediaError>)
        ensures
            Reader::reads(*old(self), *final(self), 2, r, be_i16(old(self).bytes(), old(self).pos() as int)),
    {
        let v: u16 = self.read_u16()?;
        Ok(to_i16(v))
    }

    /// Reads a signed 32-bit number, most significant byte first.
    pub fn read_i32(&mut self) -> (r: Result<i32, MediaError>)
        ensures
            Reader::reads(*old(self), *final(self), 4, r, be_i32(old(self).bytes(), old(self).pos() as int)),
    {
        let v: u32 = self.read_u32()?;
        Ok(to_i32(v))
    }

    /// Reads a signed 64-bit number, most significant byte first.
    pub fn read_i64(&mut self) -> (r: Result<i64, MediaError>)
        ensures
            Reader::reads(*old(self), *final(self), 8, r, be_i64(old(self).bytes(), old(self).pos() as int)),
    {
        let v: u64 = self.read_u64()?;
        Ok(to_i64(v))
    }

    /// Reads `len` bytes as text, replacing what is not valid UTF-8.
    pub fn read_fixed_string(&mut self, len: usize) -> (r: Result<String, MediaError>)
        ensures
            final(self).bytes() == old(self).bytes(),
            r is Ok <==> readable(old(self).bytes(), old(self).pos() as int, len as int),
            r matches Ok(s) ==> s@ == lossy_text(bytes_at(old(self).bytes(), old(self).pos() as int, len as int))
                && final(self).pos() == old(self).pos() + len,
            r matches Err(e) ==> e == MediaError::Io(IoErrorKind::UnexpectedEof) && final(self).pos() == old(self).pos(),
    {
        let raw = self.read_bytes(len as u64)?;
        Ok(string_from_utf8_lossy(raw.as_slice()))
    }

    /// Reads `len` bytes, drops the zero bytes at their end, and decodes the
    /// rest as UTF-8.  Fails with `InvalidData`, after the bytes were read,
    /// where they are not valid UTF-8.
    pub fn read_string(&mut self, len: u64) -> (r: Result<String, MediaError>)
        ensures
            final(self).bytes() == old(self).bytes(),
            ({
                let raw = bytes_at(old(self).bytes(), old(self).pos() as int, len as int);
                if !readable(old(self).bytes(), old(self).pos() as int, len as int) {
                    r == Err::<String, MediaError>(MediaError::Io(IoErrorKind::UnexpectedEof)) && final(self).pos() == old(self).pos()
                } else if !valid_utf8(without_trailing_nuls(raw)) {
                    r == Err::<String, MediaError>(MediaError::Io(IoErrorKind::InvalidData)) && final(self).pos() == old(self).pos() + len
                } else {
                    r matches Ok(s) && s@ == decode_utf8(without_trailing_nuls(raw)) && final(self).pos()
                        == old(self).pos() + len
                }
            }),
    {
        let mut raw = self.read_bytes(len)?;
        strip_trailing_nuls(&mut raw);
        match string_from_utf8(raw) {
            Some(s) => Ok(s),
            None => Err(MediaError::Io(IoErrorKind::InvalidData)),
        }
    }

    /// Reads up to the next zero byte, takes that byte too, and decodes what
    /// stood before it as UTF-8.
    pub fn read_string_until_null(&mut self) -> (r: Result<String, MediaError>)
        ensures
            final(self).bytes() == old(self).bytes(),
            old(self).pos() <= final(self).pos(),
            ({
                let data = old(self).bytes();
                let start = old(self).pos() as int;
                let stop = nul_offset(data, start);
                let raw = bytes_at(data, start, stop - start);
                if stop >= data.len() {
                    r == Err::<String, MediaError>(MediaError::Io(IoErrorKind::UnexpectedEof)) && final(self).pos() == if start < data.len() { data.len() as int } else { start }
                } else if !valid_utf8(raw) {
                    r == Err::<String, MediaError>(MediaError::Io(IoErrorKind::InvalidData)) && final(self).pos() == stop + 1
                } else {
                    r matches Ok(s) && s@ == decode_utf8(raw) && final(self).pos() == stop + 1
                }
            }),
    {
        let ghost data = self.bytes();
        let ghost start = self.pos() as int;
        let mut raw: Vec<u8> = Vec::new();
        loop
            invariant_except_break
                data == old(self).bytes(),
                start == old(self).pos(),
                self.bytes() == data,
                start <= self.pos(),
                raw@.len() == self.pos() - start,
                start < data.len() ==> self.pos() <= data.len(),
                start >= data.len() ==> self.pos() == start,
                nul_offset(data, self.pos() as int) == nul_offset(data, start),
                forall|j: int| 0 <= j < raw@.len() ==> raw@[j] == data[start + j],
            ensures
                self.bytes() == data,
                start <= self.pos(),
                nul_offset(data, start) < data.len(),
                self.pos() == nul_offset(data, start) + 1,
                raw@ == bytes_at(data, start, nul_offset(data, start) - start),
            decreases data.len() - self.pos(),
        {
            let byte: u8 = match self.read_u8() {
                Ok(b) => b,
                Err(e) => {
                    return Err(e);
                },
            };
            if byte == 0 {
                proof {
                    assert(raw@ =~= bytes_at(data, start, nul_offset(data, start) - start));
                }
                break ;
            }
            raw.push(byte);
        }
        match string_from_utf8(raw) {
            Some(s) => Ok(s),
            None => Err(MediaError::Io(IoErrorKind::InvalidData)),
        }
    }

    /// Moves the position forward by `count` without reading.  Fails, without
    /// moving, where the new position cannot be represented.
    pub fn skip(&mut self, count: u64) -> (r: Result<(), MediaError>)
        ensures
            final(self).bytes() == old(self).bytes(),
            old(self).pos() + count <= u64::MAX ==> r is Ok && final(self).pos() == old(self).pos() + count,
            old(self).pos() + count > u64::MAX ==> r == Err::<(), MediaError>(
                MediaError::Io(IoErrorKind::InvalidInput),
            ) && final(self).pos() == old(self).pos(),
    {
        if count > u64::MAX - self.position {
            return Err(MediaError::Io(IoErrorKind::InvalidInput));
        }
        self.position = self.position + count;
        Ok(())
    }

    /// Moves the position to `target` and returns it.  Fails, without moving,
    /// where the new position cannot be represented.
    pub fn seek(&mut self, target: SeekFrom) -> (r: Result<u64, MediaError>)
        ensures
            final(self).bytes() == old(self).bytes(),
            match old(self).seek_target(target) {
                Some(p) => r == Ok::<u64, MediaError>(p) && final(self).pos() == p,
                None => r == Err::<u64, MediaError>(MediaError::Io(IoErrorKind::InvalidInput)) && final(self).pos() == old(self).pos(),
            },
    {
        let wanted: Option<u64> = match target {
            SeekFrom::Start(n) => Some(n),
            SeekFrom::End(d) => Reader::offset_by(self.data.len() as u64, d),
            SeekFrom::Current(d) => Reader::offset_by(self.position, d),
        };
        match wanted {
            Some(p) => {
                self.position = p;
                Ok(p)
            },
            None => Err(MediaError::Io(IoErrorKind::InvalidInput)),
        }
    }

    /// `base + delta`, where that is a position.
    fn offset_by(base: u64, delta: i64) -> (r: Option<u64>)
        ensures
            0 <= base + delta <= u64::MAX ==> r == Some((base + delta) as u64),
            !(0 <= base + delta <= u64::MAX) ==> r is None,
    {
        if delta >= 0 {
            let d: u64 = delta as u64;
            if d > u64::MAX - base {
                None
            } else {
                Some(base + d)
            }
        } else {
            let d: u64 = ((-(delta + 1)) as u64) + 1;
            if d > base {
                None
            } else {
                Some(base - d)
            }
        }
    }

    /// The current position.
    pub fn position(&self) -> (p: u64)
        ensures
            p == self.pos(),
    {
        self.position
    }

    /// The length of the stream.  The position stays where it is.
    pub fn get_file_size(&mut self) -> (r: Result<u64, MediaError>)
        ensures
            final(self).bytes() == old(self).bytes(),
            final(self).pos() == old(self).pos(),
            r == Ok::<u64, MediaError>(old(self).bytes().len() as u64),
    {
        Ok(self.data.len() as u64)
    }
}

} // verus!
