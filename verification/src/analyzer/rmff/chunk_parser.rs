//! The sequential decoder of the chunk stream.

use super::chunks::{
    chunk_views, Chunk, ChunkData, ChunkDataView, ChunkType, ChunkView, ContChunk, ContView,
    DataChunk, IndexEntry, IndxChunk, IndxView, MdprChunk, MdprView, PropChunk,
};
use crate::analyzer::isobmff::types::code_of;
use crate::error::{IoErrorKind, MediaError, MediaErrorView};
use crate::encoding::{holds, holds_both, reads_back_u32, u32_bytes};
use crate::reader::{be_u32, bytes_at, readable, Reader, SeekFrom};
use crate::text::{decimal, u64_to_string};
use vstd::prelude::*;
use vstd::string::StringExecFns;

verus! {

/// The kinds of chunk that are told apart by their type.
#[derive(Clone, Copy, Debug, PartialEq, Eq, Structural)]
pub enum ChunkKind {
    Prop,
    Cont,
    Mdpr,
    Data,
    Indx,
    Unknown,
}

impl ChunkKind {
    /// The kind that a type code stands for.
    pub open spec fn of(code: Seq<u8>) -> ChunkKind {
        if code == code_of('P', 'R', 'O', 'P') {
            ChunkKind::Prop
        } else if code == code_of('C', 'O', 'N', 'T') {
            ChunkKind::Cont
        } else if code == code_of('M', 'D', 'P', 'R') {
            ChunkKind::Mdpr
        } else if code == code_of('D', 'A', 'T', 'A') {
            ChunkKind::Data
        } else if code == code_of('I', 'N', 'D', 'X') {
            ChunkKind::Indx
        } else {
            ChunkKind::Unknown
        }
    }

    /// The kind of a chunk type.
    pub fn classify(chunk_type: &ChunkType) -> (k: ChunkKind)
        ensures
            k == ChunkKind::of(chunk_type@),
    {
        if chunk_type.is('P', 'R', 'O', 'P') {
            ChunkKind::Prop
        } else if chunk_type.is('C', 'O', 'N', 'T') {
            ChunkKind::Cont
        } else if chunk_type.is('M', 'D', 'P', 'R') {
            ChunkKind::Mdpr
        } else if chunk_type.is('D', 'A', 'T', 'A') {
            ChunkKind::Data
        } else if chunk_type.is('I', 'N', 'D', 'X') {
            ChunkKind::Indx
        } else {
            ChunkKind::Unknown
        }
    }
}

/// The message of the error for a stream that does not begin with the marker.
pub open spec fn not_real_media() -> MediaErrorView {
    MediaErrorView::InvalidFormat("Not a RealMedia file"@)
}

/// The message of the error for a format version other than zero.
pub open spec fn unsupported_version(version: u32) -> MediaErrorView {
    MediaErrorView::InvalidFormat("Unsupported RealMedia version: "@ + decimal(version as nat))
}

/// What a chunk of kind `kind` holds, read from a payload of `size` bytes at
/// offset `at`.  A chunk of unknown type is passed over.
#[verifier::opaque]
pub open spec fn payload_at(kind: ChunkKind, data: Seq<u8>, at: int, size: int) -> Result<
    ChunkDataView,
    MediaErrorView,
> {
    match kind {
        ChunkKind::Prop => match PropChunk::decode(data, at, size) {
            Ok(c) => Ok(ChunkDataView::Prop(c)),
            Err(e) => Err(e),
        },
        ChunkKind::Cont => match ContView::decode(data, at, size) {
            Ok(c) => Ok(ChunkDataView::Cont(c)),
            Err(e) => Err(e),
        },
        ChunkKind::Mdpr => match MdprView::decode(data, at, size) {
            Ok(c) => Ok(ChunkDataView::Mdpr(c)),
            Err(e) => Err(e),
        },
        ChunkKind::Data => match DataChunk::decode(data, at, size) {
            Ok(c) => Ok(ChunkDataView::Data(c)),
            Err(e) => Err(e),
        },
        ChunkKind::Indx => match IndxView::decode(data, at, size) {
            Ok(c) => Ok(ChunkDataView::Indx(c)),
            Err(e) => Err(e),
        },
        ChunkKind::Unknown => Ok(ChunkDataView::Unknown),
    }
}

/// The chunk whose header of eight bytes stands at offset `at`: a 32-bit
/// size with the header counted in, a four-byte type, and the payload.  There
/// is none where the size is under eight or leads beyond the largest offset,
/// or where the payload cannot be decoded.
pub open spec fn chunk_at(data: Seq<u8>, at: int) -> Option<ChunkView> {
    let size = be_u32(data, at);
    let code = bytes_at(data, at + 4, 4);
    if size < 8 || at + size > u64::MAX {
        None
    } else {
        match payload_at(ChunkKind::of(code), data, at + 8, size - 8) {
            Ok(d) => Some(
                ChunkView {
                    chunk_type: code,
                    size: size as u64,
                    offset: at as u64,
                    data: d,
                    children: Seq::empty(),
                },
            ),
            Err(_) => None,
        }
    }
}

/// The chunks that stand one after another from offset `at` on, up to the
/// first place where no header of eight bytes is left or the chunk cannot be
/// decoded.
pub open spec fn chunks_from(data: Seq<u8>, at: int) -> Seq<ChunkView>
    decreases
            (if at <= data.len() {
                data.len() - at
            } else {
                0
            }),
{
    if !readable(data, at, 8) {
        Seq::empty()
    } else {
        match chunk_at(data, at) {
            Some(c) => seq![c] + chunks_from(data, at + c.size),
            None => Seq::empty(),
        }
    }
}

/// What a stream is decoded to from offset `at` on.  It must begin with the
/// marker `.RMF`, and the format version after the marker must be zero: these
/// two are the only failures.  The file size after the version is read and
/// not used, then the chunks follow.  A stream that ends before its header of
/// twelve bytes is complete has no chunks.
pub open spec fn stream_at(data: Seq<u8>, at: int) -> Result<Seq<ChunkView>, MediaErrorView> {
    if !readable(data, at, 4) || bytes_at(data, at, 4) != code_of('.', 'R', 'M', 'F') {
        Err(not_real_media())
    } else if !readable(data, at + 4, 4) {
        Ok(Seq::empty())
    } else if be_u32(data, at + 4) != 0 {
        Err(unsupported_version(be_u32(data, at + 4)))
    } else if !readable(data, at + 8, 4) {
        Ok(Seq::empty())
    } else {
        Ok(chunks_from(data, at + 12))
    }
}

/// Where the decoding of a stream that began at `at` ends: after the last
/// chunk, after the header of twelve bytes where there is no chunk, and at
/// `at` where the header is not complete.
pub open spec fn stream_end(data: Seq<u8>, at: int) -> int {
    if readable(data, at, 12) {
        end_of(chunks_from(data, at + 12), at + 12)
    } else {
        at
    }
}

/// Where a list of chunks that began at `from` ends: after its last chunk, or
/// at `from` where it is empty.
pub open spec fn end_of(chunks: Seq<ChunkView>, from: int) -> int {
    if chunks.len() == 0 {
        from
    } else {
        chunks.last().offset + chunks.last().size
    }
}

/// The chunks decoded from offset `at` on follow one another without a gap:
/// the first begins at `at`, each next one begins where the one before it
/// ends, and none has children.  Each of them is the chunk decoded at its own
/// offset.
pub proof fn chunks_follow_one_another(data: Seq<u8>, at: int)
    requires
        0 <= at,
    ensures
        ({
            let chunks = chunks_from(data, at);
            &&& chunks.len() > 0 ==> chunks[0].offset == at
            &&& forall|i: int|
                0 <= i < chunks.len() - 1 ==> (#[trigger] chunks[i]).offset + chunks[i].size
                    == chunks[i + 1].offset
            &&& forall|i: int|
                0 <= i < chunks.len() ==> (#[trigger] chunks[i]).size >= 8 && chunks[i].offset + 8
                    <= data.len() && chunks[i].children.len() == 0 && chunk_at(
                    data,
                    chunks[i].offset as int,
                ) == Some(chunks[i])
        }),
    decreases
            (if at <= data.len() {
                data.len() - at
            } else {
                0
            }),
{
    let chunks = chunks_from(data, at);
    if readable(data, at, 8) {
        match chunk_at(data, at) {
            Some(c) => {
                let rest = chunks_from(data, at + c.size);
                chunks_follow_one_another(data, at + c.size);
                assert(chunks =~= seq![c] + rest);
                assert(chunks[0] == c);
                assert forall|i: int| 0 <= i < chunks.len() - 1 implies (#[trigger] chunks[i]).offset
                    + chunks[i].size == chunks[i + 1].offset by {
                    if i > 0 {
                        assert(chunks[i] == rest[i - 1]);
                        assert(chunks[i + 1] == rest[i]);
                    } else {
                        assert(chunks[1] == rest[0]);
                    }
                }
                assert forall|i: int| 0 <= i < chunks.len() implies (#[trigger] chunks[i]).size >= 8
                    && chunks[i].offset + 8 <= data.len() && chunks[i].children.len() == 0 && chunk_at(
                    data,
                    chunks[i].offset as int,
                ) == Some(chunks[i]) by {
                    if i > 0 {
                        assert(chunks[i] == rest[i - 1]);
                    }
                }
            },
            None => {},
        }
    }
}

/// The chunks decoded from offset `at` on end where no header of eight bytes
/// is left, or where the chunk that would come next cannot be decoded:
/// nothing that can be decoded is left out, and nothing is read after the
/// first chunk that cannot.
pub proof fn chunks_end_where_decoding_ends(data: Seq<u8>, at: int)
    requires
        0 <= at,
    ensures
        ({
            let stop = end_of(chunks_from(data, at), at);
            at <= stop && (!readable(data, stop, 8) || chunk_at(data, stop) is None)
        }),
    decreases
            (if at <= data.len() {
                data.len() - at
            } else {
                0
            }),
{
    let chunks = chunks_from(data, at);
    if readable(data, at, 8) {
        match chunk_at(data, at) {
            Some(c) => {
                let rest = chunks_from(data, at + c.size);
                chunks_end_where_decoding_ends(data, at + c.size);
                assert(chunks =~= seq![c] + rest);
                if rest.len() > 0 {
                    assert(chunks.last() == rest.last());
                } else {
                    assert(chunks.last() == c);
                }
            },
            None => {},
        }
    }
}

/// Only the marker and the version make a stream fail: a stream that begins
/// with the marker, and holds the version zero where it holds a version at
/// all, is decoded to a list of chunks, whatever follows.
pub proof fn only_marker_and_version_fail(data: Seq<u8>, at: int)
    ensures
        stream_at(data, at) is Err <==> !readable(data, at, 4) || bytes_at(data, at, 4) != code_of(
            '.',
            'R',
            'M',
            'F',
        ) || (readable(data, at + 4, 4) && be_u32(data, at + 4) != 0),
        stream_at(data, at) matches Err(e) ==> e is InvalidFormat,
{
}

/// The twelve bytes that begin a stream: the marker, the version zero, and
/// the file size.
pub open spec fn stream_header_bytes(file_size: u32) -> Seq<u8> {
    code_of('.', 'R', 'M', 'F') + u32_bytes(0) + u32_bytes(file_size)
}

/// The eight bytes of the header of a chunk of type `code` and size `size`.
pub open spec fn header_bytes(code: Seq<u8>, size: u32) -> Seq<u8> {
    u32_bytes(size) + code
}

/// A stream that begins with the marker and the version zero decodes to the
/// chunks that follow the twelve bytes of its header.
pub proof fn stream_header_reads_back(data: Seq<u8>, at: int, file_size: u32)
    requires
        holds(data, at, stream_header_bytes(file_size)),
    ensures
        stream_at(data, at) == Ok::<Seq<ChunkView>, MediaErrorView>(chunks_from(data, at + 12)),
        stream_end(data, at) == end_of(chunks_from(data, at + 12), at + 12),
{
    let marker = code_of('.', 'R', 'M', 'F');
    holds_both(data, at, marker + u32_bytes(0), u32_bytes(file_size));
    holds_both(data, at, marker, u32_bytes(0));
    reads_back_u32(data, at + 4, 0);
    reads_back_u32(data, at + 8, file_size);
}

/// A chunk written down is read back: where its header stands at offset `at`
/// and its payload decodes to `content`, the chunk at `at` has the type and
/// size of the header and holds `content`.
pub proof fn chunk_reads_back(data: Seq<u8>, at: int, code: Seq<u8>, size: u32, content: ChunkDataView)
    requires
        code.len() == 4,
        size >= 8,
        at + size <= u64::MAX,
        holds(data, at, header_bytes(code, size)),
        payload_at(ChunkKind::of(code), data, at + 8, size - 8) == Ok::<ChunkDataView, MediaErrorView>(content),
    ensures
        readable(data, at, 8),
        chunk_at(data, at) == Some(
            ChunkView {
                chunk_type: code,
                size: size as u64,
                offset: at as u64,
                data: content,
                children: Seq::empty(),
            },
        ),
{
    holds_both(data, at, u32_bytes(size), code);
    reads_back_u32(data, at, size);
}

/// A list of chunks begins with the chunk at its first offset and goes on
/// after it; it is empty where no header is left or that chunk cannot be
/// decoded.
pub proof fn list_begins_with_first_chunk(data: Seq<u8>, at: int)
    ensures
        chunks_from(data, at) == if !readable(data, at, 8) {
            Seq::<ChunkView>::empty()
        } else {
            match chunk_at(data, at) {
                Some(c) => seq![c] + chunks_from(data, at + c.size),
                None => Seq::empty(),
            }
        },
{
}

/// What a chunk of each kind decodes to: the decoder of the kind is applied
/// to the payload.
pub proof fn payload_is_decoded_by_kind(kind: ChunkKind, data: Seq<u8>, at: int, size: int)
    ensures
        kind == ChunkKind::Prop ==> payload_at(kind, data, at, size) == match PropChunk::decode(data, at, size) {
            Ok(c) => Ok::<ChunkDataView, MediaErrorView>(ChunkDataView::Prop(c)),
            Err(e) => Err(e),
        },
        kind == ChunkKind::Cont ==> payload_at(kind, data, at, size) == match ContView::decode(data, at, size) {
            Ok(c) => Ok::<ChunkDataView, MediaErrorView>(ChunkDataView::Cont(c)),
            Err(e) => Err(e),
        },
        kind == ChunkKind::Mdpr ==> payload_at(kind, data, at, size) == match MdprView::decode(data, at, size) {
            Ok(c) => Ok::<ChunkDataView, MediaErrorView>(ChunkDataView::Mdpr(c)),
            Err(e) => Err(e),
        },
        kind == ChunkKind::Data ==> payload_at(kind, data, at, size) == match DataChunk::decode(data, at, size) {
            Ok(c) => Ok::<ChunkDataView, MediaErrorView>(ChunkDataView::Data(c)),
            Err(e) => Err(e),
        },
        kind == ChunkKind::Indx ==> payload_at(kind, data, at, size) == match IndxView::decode(data, at, size) {
            Ok(c) => Ok::<ChunkDataView, MediaErrorView>(ChunkDataView::Indx(c)),
            Err(e) => Err(e),
        },
        kind == ChunkKind::Unknown ==> payload_at(kind, data, at, size) == Ok::<ChunkDataView, MediaErrorView>(
            ChunkDataView::Unknown,
        ),
{
    reveal(payload_at);
}

/// Decoder of a chunk stream over a byte stream.
pub struct ChunkParser {
    reader: Reader,
    debug: bool,
}

impl ChunkParser {
    /// The bytes of the stream.
    pub closed spec fn bytes(&self) -> Seq<u8> {
        self.reader.bytes()
    }

    /// The position of the next read.
    pub closed spec fn pos(&self) -> u64 {
        self.reader.pos()
    }

    /// Whether diagnostics are asked for.
    pub closed spec fn debug(&self) -> bool {
        self.debug
    }

    /// A parser that continues where `reader` stands.
    pub fn new(reader: Reader) -> (p: ChunkParser)
        ensures
            p.bytes() == reader.bytes(),
            p.pos() == reader.pos(),
            p.debug(),
    {
        ChunkParser { reader, debug: true }
    }

    /// Asks for diagnostics, or not.  What is parsed does not depend on it.
    pub fn set_debug(&mut self, debug: bool)
        ensures
            final(self).bytes() == old(self).bytes(),
            final(self).pos() == old(self).pos(),
            final(self).debug() == debug,
    {
        self.debug = debug;
    }

    /// Checks the marker and the version at the current position and decodes
    /// the chunks that follow, up to the first that cannot be decoded.  Fails
    /// only where the marker is missing or wrong, or the version is not zero,
    /// and then stays where it was.  After a success the position is the end
    /// of what was decoded.
    pub fn parse_chunks(&mut self) -> (r: Result<Vec<Chunk>, MediaError>)
        ensures
            final(self).bytes() == old(self).bytes(),
            r is Ok ==> final(self).pos() == stream_end(old(self).bytes(), old(self).pos() as int),
            r is Err ==> final(self).pos() == old(self).pos(),
            match r {
                Ok(chunks) => stream_at(old(self).bytes(), old(self).pos() as int) == Ok::<
                    Seq<ChunkView>,
                    MediaErrorView,
                >(chunk_views(chunks@)),
                Err(e) => stream_at(old(self).bytes(), old(self).pos() as int) == Err::<
                    Seq<ChunkView>,
                    MediaErrorView,
                >(e@),
            },
    {
        let ghost data = self.bytes();
        let ghost at = self.pos() as int;
        let start: u64 = self.reader.position();
        let mut magic: [u8; 4] = [0u8; 4];
        if self.reader.read_exact(&mut magic).is_err() {
            return Err(MediaError::InvalidFormat(String::from_str("Not a RealMedia file")));
        }
        let marker = ChunkType::new(magic);
        proof {
            assert(marker@ =~= bytes_at(data, at, 4));
        }
        if !marker.is('.', 'R', 'M', 'F') {
            let _ = self.reader.seek(SeekFrom::Start(start));
            return Err(MediaError::InvalidFormat(String::from_str("Not a RealMedia file")));
        }
        let version: u32 = match self.reader.read_u32() {
            Ok(v) => v,
            Err(_) => {
                let _ = self.reader.seek(SeekFrom::Start(start));
                let none: Vec<Chunk> = Vec::new();
                proof {
                    assert(chunk_views(none@) =~= Seq::empty());
                }
                return Ok(none);
            },
        };
        if version != 0 {
            let _ = self.reader.seek(SeekFrom::Start(start));
            let mut message = String::from_str("Unsupported RealMedia version: ");
            message.append(u64_to_string(version as u64).as_str());
            return Err(MediaError::InvalidFormat(message));
        }
        match self.reader.read_u32() {
            Ok(_file_size) => {},
            Err(_) => {
                let _ = self.reader.seek(SeekFrom::Start(start));
                let none: Vec<Chunk> = Vec::new();
                proof {
                    assert(chunk_views(none@) =~= Seq::empty());
                }
                return Ok(none);
            },
        }
        Ok(self.parse_chunk_list())
    }

    /// Decodes the chunks from the current position on, up to the first
    /// that cannot be decoded; the position is then the end of the last chunk
    /// decoded.
    fn parse_chunk_list(&mut self) -> (chunks: Vec<Chunk>)
        ensures
            final(self).bytes() == old(self).bytes(),
            chunk_views(chunks@) == chunks_from(old(self).bytes(), old(self).pos() as int),
            final(self).pos() == end_of(chunk_views(chunks@), old(self).pos() as int),
    {
        let ghost data = self.bytes();
        let ghost start = self.pos() as int;
        let mut chunks: Vec<Chunk> = Vec::new();
        proof {
            assert(chunk_views(chunks@) =~= Seq::empty());
            assert(Seq::<ChunkView>::empty() + chunks_from(data, start) =~= chunks_from(data, start));
        }
        loop
            invariant_except_break
                self.bytes() == data,
                data == old(self).bytes(),
                start == old(self).pos(),
                start <= self.pos(),
                chunks_from(data, start) == chunk_views(chunks@) + chunks_from(data, self.pos() as int),
                self.pos() == end_of(chunk_views(chunks@), start),
            ensures
                self.bytes() == data,
                chunks_from(data, start) == chunk_views(chunks@),
                self.pos() == end_of(chunk_views(chunks@), start),
            decreases
                    (if self.pos() <= data.len() {
                        data.len() - self.pos()
                    } else {
                        0
                    }),
        {
            let ghost here = self.pos() as int;
            let ghost before = chunk_views(chunks@);
            let resume: u64 = self.reader.position();
            let header = match self.read_chunk_header() {
                Ok(h) => h,
                Err(_) => {
                    let _ = self.reader.seek(SeekFrom::Start(resume));
                    proof {
                        assert(chunks_from(data, here) =~= Seq::empty());
                        assert(before + Seq::<ChunkView>::empty() =~= before);
                    }
                    break ;
                },
            };
            let chunk = match self.parse_chunk(header.0, header.1, header.2) {
                Ok(c) => c,
                Err(_) => {
                    let _ = self.reader.seek(SeekFrom::Start(resume));
                    proof {
                        assert(chunks_from(data, here) =~= Seq::empty());
                        assert(before + Seq::<ChunkView>::empty() =~= before);
                    }
                    break ;
                },
            };
            chunks.push(chunk);
            proof {
                assert(chunk_views(chunks@) =~= before.push(chunk@));
                assert(chunk_views(chunks@).last() == chunk@);
                let rest = chunks_from(data, self.pos() as int);
                assert(chunks_from(data, here) == seq![chunk@] + rest);
                assert(before + (seq![chunk@] + rest) =~= chunk_views(chunks@) + rest);
            }
        }
        chunks
    }

    /// Reads size and type of the chunk at the current position; returns
    /// them with the offset of the chunk.
    fn read_chunk_header(&mut self) -> (r: Result<(u64, ChunkType, u64), MediaError>)
        ensures
            final(self).bytes() == old(self).bytes(),
            r is Ok <==> readable(old(self).bytes(), old(self).pos() as int, 8),
            r matches Ok(h) ==> h.0 == be_u32(old(self).bytes(), old(self).pos() as int) && h.1@ == bytes_at(
                old(self).bytes(),
                old(self).pos() + 4,
                4,
            ) && h.2 == old(self).pos() && final(self).pos() == old(self).pos() + 8,
    {
        let offset: u64 = self.reader.position();
        let size: u64 = self.reader.read_u32()? as u64;
        let mut type_buf: [u8; 4] = [0u8; 4];
        self.reader.read_exact(&mut type_buf)?;
        let chunk_type = ChunkType::new(type_buf);
        proof {
            assert(chunk_type@ =~= bytes_at(old(self).bytes(), old(self).pos() + 4, 4));
        }
        Ok((size, chunk_type, offset))
    }

    /// Decodes the chunk of which size, type and offset were just read.
    fn parse_chunk(&mut self, size: u64, chunk_type: ChunkType, offset: u64) -> (r: Result<Chunk, MediaError>)
        requires
            old(self).pos() == offset + 8,
            size == be_u32(old(self).bytes(), offset as int),
            chunk_type@ == bytes_at(old(self).bytes(), offset + 4, 4),
        ensures
            final(self).bytes() == old(self).bytes(),
            match r {
                Ok(c) => chunk_at(old(self).bytes(), offset as int) == Some(c@) && final(self).pos() == offset
                    + c.size && c.size >= 8,
                Err(_) => chunk_at(old(self).bytes(), offset as int) is None,
            },
    {
        if size < 8 || size > u64::MAX - offset {
            return Err(MediaError::InvalidBoxSize);
        }
        let kind = ChunkKind::classify(&chunk_type);
        let chunk_data = self.parse_payload(kind, size - 8)?;
        Ok(Chunk::new(chunk_type, size, offset, chunk_data))
    }

    /// Decodes the payload of `size` bytes at the current position as a chunk
    /// of kind `kind`.  On success the position is the end of the payload.
    fn parse_payload(&mut self, kind: ChunkKind, size: u64) -> (r: Result<ChunkData, MediaError>)
        requires
            old(self).pos() + size <= u64::MAX,
        ensures
            final(self).bytes() == old(self).bytes(),
            match r {
                Ok(d) => payload_at(kind, old(self).bytes(), old(self).pos() as int, size as int) == Ok::<
                    ChunkDataView,
                    MediaErrorView,
                >(d@) && final(self).pos() == old(self).pos() + size,
                Err(e) => payload_at(kind, old(self).bytes(), old(self).pos() as int, size as int) == Err::<
                    ChunkDataView,
                    MediaErrorView,
                >(e@),
            },
    {
        reveal(payload_at);
        match kind {
            ChunkKind::Prop => Ok(ChunkData::Prop(self.parse_prop(size)?)),
            ChunkKind::Cont => Ok(ChunkData::Cont(self.parse_cont(size)?)),
            ChunkKind::Mdpr => Ok(ChunkData::Mdpr(self.parse_mdpr(size)?)),
            ChunkKind::Data => Ok(ChunkData::Data(self.parse_data(size)?)),
            ChunkKind::Indx => Ok(ChunkData::Indx(self.parse_indx(size)?)),
            ChunkKind::Unknown => {
                self.reader.skip(size)?;
                Ok(ChunkData::Unknown)
            },
        }
    }

    /// Moves to the end of a payload of `size` bytes that began at `start`.
    fn finish_payload(&mut self, start: u64, size: u64) -> (r: Result<(), MediaError>)
        requires
            start <= old(self).pos() <= start + size <= u64::MAX,
        ensures
            final(self).bytes() == old(self).bytes(),
            r is Ok,
            final(self).pos() == start + size,
    {
        let consumed: u64 = self.reader.position() - start;
        self.reader.skip(size - consumed)
    }

    fn parse_prop(&mut self, size: u64) -> (r: Result<PropChunk, MediaError>)
        requires
            old(self).pos() + size <= u64::MAX,
        ensures
            final(self).bytes() == old(self).bytes(),
            match r {
                Ok(c) => PropChunk::decode(old(self).bytes(), old(self).pos() as int, size as int) == Ok::<
                    PropChunk,
                    MediaErrorView,
                >(c) && final(self).pos() == old(self).pos() + size,
                Err(e) => PropChunk::decode(old(self).bytes(), old(self).pos() as int, size as int) == Err::<
                    PropChunk,
                    MediaErrorView,
                >(e@),
            },
    {
        let start: u64 = self.reader.position();
        if size < 40 {
            return Err(MediaError::InvalidBoxSize);
        }
        let max_bit_rate: u32 = self.reader.read_u32()?;
        let avg_bit_rate: u32 = self.reader.read_u32()?;
        let max_packet_size: u32 = self.reader.read_u32()?;
        let avg_packet_size: u32 = self.reader.read_u32()?;
        let num_packets: u32 = self.reader.read_u32()?;
        let duration: u32 = self.reader.read_u32()?;
        let preroll: u32 = self.reader.read_u32()?;
        let index_offset: u32 = self.reader.read_u32()?;
        let data_offset: u32 = self.reader.read_u32()?;
        let num_streams: u16 = self.reader.read_u16()?;
        let flags: u16 = self.reader.read_u16()?;
        self.finish_payload(start, size)?;
        Ok(
            PropChunk::new(
                max_bit_rate,
                avg_bit_rate,
                max_packet_size,
                avg_packet_size,
                num_packets,
                duration,
                preroll,
                index_offset,
                data_offset,
                num_streams,
                flags,
            ),
        )
    }

    fn parse_cont(&mut self, size: u64) -> (r: Result<ContChunk, MediaError>)
        requires
            old(self).pos() + size <= u64::MAX,
        ensures
            final(self).bytes() == old(self).bytes(),
            match r {
                Ok(c) => ContView::decode(old(self).bytes(), old(self).pos() as int, size as int) == Ok::<
                    ContView,
                    MediaErrorView,
                >(c@) && final(self).pos() == old(self).pos() + size,
                Err(e) => ContView::decode(old(self).bytes(), old(self).pos() as int, size as int) == Err::<
                    ContView,
                    MediaErrorView,
                >(e@),
            },
    {
        let start: u64 = self.reader.position();
        if size < 8 {
            return Err(MediaError::InvalidBoxSize);
        }
        let title_len: u64 = self.reader.read_u16()? as u64;
        let author_len: u64 = self.reader.read_u16()? as u64;
        let copyright_len: u64 = self.reader.read_u16()? as u64;
        let comment_len: u64 = self.reader.read_u16()? as u64;
        if size - 8 < title_len + author_len + copyright_len + comment_len {
            return Err(MediaError::InvalidBoxSize);
        }
        let title = self.reader.read_string(title_len)?;
        let author = self.reader.read_string(author_len)?;
        let copyright = self.reader.read_string(copyright_len)?;
        let comment = self.reader.read_string(comment_len)?;
        self.finish_payload(start, size)?;
        Ok(ContChunk::new(title, author, copyright, comment))
    }

    fn parse_mdpr(&mut self, size: u64) -> (r: Result<MdprChunk, MediaError>)
        requires
            old(self).pos() + size <= u64::MAX,
        ensures
            final(self).bytes() == old(self).bytes(),
            match r {
                Ok(c) => MdprView::decode(old(self).bytes(), old(self).pos() as int, size as int) == Ok::<
                    MdprView,
                    MediaErrorView,
                >(c@) && final(self).pos() == old(self).pos() + size,
                Err(e) => MdprView::decode(old(self).bytes(), old(self).pos() as int, size as int) == Err::<
                    MdprView,
                    MediaErrorView,
                >(e@),
            },
    {
        let start: u64 = self.reader.position();
        if size < 36 {
            return Err(MediaError::InvalidBoxSize);
        }
        let stream_number: u16 = self.reader.read_u16()?;
        let max_bit_rate: u32 = self.reader.read_u32()?;
        let avg_bit_rate: u32 = self.reader.read_u32()?;
        let max_packet_size: u32 = self.reader.read_u32()?;
        let avg_packet_size: u32 = self.reader.read_u32()?;
        let start_time: u32 = self.reader.read_u32()?;
        let preroll: u32 = self.reader.read_u32()?;
        let duration: u32 = self.reader.read_u32()?;
        let stream_name_len: u64 = self.reader.read_u8()? as u64;
        let mime_type_len: u64 = self.reader.read_u8()? as u64;
        let type_specific_len: u32 = self.reader.read_u32()?;
        if size - 36 < stream_name_len + mime_type_len + type_specific_len as u64 {
            return Err(MediaError::InvalidBoxSize);
        }
        let stream_name = self.reader.read_string(stream_name_len)?;
        let mime_type = self.reader.read_string(mime_type_len)?;
        let type_specific_data = self.reader.read_bytes(type_specific_len as u64)?;
        self.finish_payload(start, size)?;
        Ok(
            MdprChunk::new(
                stream_number,
                max_bit_rate,
                avg_bit_rate,
                max_packet_size,
                avg_packet_size,
                start_time,
                preroll,
                duration,
                stream_name,
                mime_type,
                type_specific_len,
                type_specific_data,
            ),
        )
    }

    /// The packets are passed over, not read.
    fn parse_data(&mut self, size: u64) -> (r: Result<DataChunk, MediaError>)
        requires
            old(self).pos() + size <= u64::MAX,
        ensures
            final(self).bytes() == old(self).bytes(),
            match r {
                Ok(c) => DataChunk::decode(old(self).bytes(), old(self).pos() as int, size as int) == Ok::<
                    DataChunk,
                    MediaErrorView,
                >(c) && final(self).pos() == old(self).pos() + size,
                Err(e) => DataChunk::decode(old(self).bytes(), old(self).pos() as int, size as int) == Err::<
                    DataChunk,
                    MediaErrorView,
                >(e@),
            },
    {
        let start: u64 = self.reader.position();
        if size < 8 {
            return Err(MediaError::InvalidBoxSize);
        }
        let num_packets: u32 = self.reader.read_u32()?;
        let next_data_header: u32 = self.reader.read_u32()?;
        self.finish_payload(start, size)?;
        Ok(DataChunk::new(num_packets, next_data_header))
    }

    fn parse_indx(&mut self, size: u64) -> (r: Result<IndxChunk, MediaError>)
        requires
            old(self).pos() + size <= u64::MAX,
        ensures
            final(self).bytes() == old(self).bytes(),
            match r {
                Ok(c) => IndxView::decode(old(self).bytes(), old(self).pos() as int, size as int) == Ok::<
                    IndxView,
                    MediaErrorView,
                >(c@) && final(self).pos() == old(self).pos() + size,
                Err(e) => IndxView::decode(old(self).bytes(), old(self).pos() as int, size as int) == Err::<
                    IndxView,
                    MediaErrorView,
                >(e@),
            },
    {
        let ghost data = self.bytes();
        let start: u64 = self.reader.position();
        if size < 10 {
            return Err(MediaError::InvalidBoxSize);
        }
        let num_entries: u32 = self.reader.read_u32()?;
        let stream_number: u16 = self.reader.read_u16()?;
        let next_index_header: u32 = self.reader.read_u32()?;
        let count: u64 = num_entries as u64;
        if size < 10 + 12 * count {
            return Err(MediaError::InvalidBoxSize);
        }
        let mut entries: Vec<IndexEntry> = Vec::new();
        let mut i: u64 = 0;
        while i < count
            invariant
                self.bytes() == data,
                data == old(self).bytes(),
                start == old(self).pos(),
                start + size <= u64::MAX,
                i <= count,
                count == be_u32(data, start as int),
                size >= 10 + 12 * count,
                self.pos() == start + 10 + 12 * i,
                readable(data, start as int, 10 + 12 * i),
                entries@.len() == i,
                forall|j: int| 0 <= j < i ==> entries@[j] == IndxView::entry_at(data, start as int, j),
            decreases count - i,
        {
            let timestamp: u32 = self.reader.read_u32()?;
            let offset: u32 = self.reader.read_u32()?;
            let packet_count: u32 = self.reader.read_u32()?;
            entries.push(IndexEntry::new(timestamp, offset, packet_count));
            i = i + 1;
        }
        self.finish_payload(start, size)?;
        let c = IndxChunk::new(num_entries, stream_number, next_index_header, entries);
        proof {
            let want = IndxView::decode(data, start as int, size as int);
            assert(want is Ok);
            assert(c@.entries =~= want->Ok_0.entries);
        }
        Ok(c)
    }
}

} // verus!
