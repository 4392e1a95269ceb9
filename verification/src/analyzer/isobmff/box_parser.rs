//! The recursive decoder of the box tree.

use super::boxes::{
    box_views, data_entry_views, sample_entry_views, Box, BoxData, BoxDataView, BoxView,
    ChunkOffsetBox, ChunkOffsetView, DataEntryBox, DataEntryView, DataInformationBox,
    DataReferenceBox, DataReferenceView, EditBox, EditListBox, EditListEntry, EditListView,
    FileTypeBox, FileTypeView, HandlerBox, HandlerView, MediaBox, MediaDataBox, MediaHeaderBox,
    MediaHeaderView, MediaInfoBox, MovieBox, MovieHeaderBox, MovieHeaderView, SampleDescriptionBox,
    SampleDescriptionView, SampleEntry, SampleEntryView, SampleSizeBox, SampleSizeView,
    SampleTableBox, SampleToChunkBox, SampleToChunkEntry, SampleToChunkView, SoundMediaHeaderBox,
    TimeToSampleBox, TimeToSampleEntry, TimeToSampleView, TrackBox, language_string,
    TrackHeaderBox, TrackHeaderView, VideoMediaHeaderBox, VideoMediaHeaderView,
};
use super::types::{code_of, BoxType, Fixed16_16, Matrix, Mp4DateTime};
use crate::error::{MediaError};
use crate::encoding::{holds, holds_both, reads_back_u32, reads_back_u64, u32_bytes, u64_bytes};
use crate::reader::{be_i32, be_u32, be_u64, bytes_at, readable, u8_at, Reader, SeekFrom};
use crate::text::{string_from_utf8_lossy, string_views, strip_trailing_nuls, lossy_text};
use vstd::arithmetic::mul::{
    lemma_mul_basics, lemma_mul_inequality, lemma_mul_is_commutative, lemma_mul_is_distributive_add,
};
use vstd::prelude::*;

verus! {

/// The kinds of box that are told apart by their type.
#[derive(Clone, Copy, Debug, PartialEq, Eq, Structural)]
pub enum BoxKind {
    FileType,
    Movie,
    MovieHeader,
    Track,
    TrackHeader,
    MediaData,
    Edit,
    EditList,
    Media,
    MediaHeader,
    Handler,
    MediaInfo,
    VideoMediaHeader,
    SoundMediaHeader,
    SampleTable,
    SampleDescription,
    TimeToSample,
    SampleToChunk,
    SampleSize,
    ChunkOffset,
    DataInformation,
    DataReference,
    Unknown,
}

impl BoxKind {
    /// The kind that a type code stands for.
    pub open spec fn of(code: Seq<u8>) -> BoxKind {
        if code == code_of('f', 't', 'y', 'p') {
            BoxKind::FileType
        } else if code == code_of('m', 'o', 'o', 'v') {
            BoxKind::Movie
        } else if code == code_of('m', 'v', 'h', 'd') {
            BoxKind::MovieHeader
        } else if code == code_of('t', 'r', 'a', 'k') {
            BoxKind::Track
        } else if code == code_of('t', 'k', 'h', 'd') {
            BoxKind::TrackHeader
        } else if code == code_of('m', 'd', 'a', 't') {
            BoxKind::MediaData
        } else if code == code_of('e', 'd', 't', 's') {
            BoxKind::Edit
        } else if code == code_of('e', 'l', 's', 't') {
            BoxKind::EditList
        } else if code == code_of('m', 'd', 'i', 'a') {
            BoxKind::Media
        } else if code == code_of('m', 'd', 'h', 'd') {
            BoxKind::MediaHeader
        } else if code == code_of('h', 'd', 'l', 'r') {
            BoxKind::Handler
        } else if code == code_of('m', 'i', 'n', 'f') {
            BoxKind::MediaInfo
        } else if code == code_of('v', 'm', 'h', 'd') {
            BoxKind::VideoMediaHeader
        } else if code == code_of('s', 'm', 'h', 'd') {
            BoxKind::SoundMediaHeader
        } else if code == code_of('s', 't', 'b', 'l') {
            BoxKind::SampleTable
        } else if code == code_of('s', 't', 's', 'd') {
            BoxKind::SampleDescription
        } else if code == code_of('s', 't', 't', 's') {
            BoxKind::TimeToSample
        } else if code == code_of('s', 't', 's', 'c') {
            BoxKind::SampleToChunk
        } else if code == code_of('s', 't', 's', 'z') {
            BoxKind::SampleSize
        } else if code == code_of('s', 't', 'c', 'o') {
            BoxKind::ChunkOffset
        } else if code == code_of('d', 'i', 'n', 'f') {
            BoxKind::DataInformation
        } else if code == code_of('d', 'r', 'e', 'f') {
            BoxKind::DataReference
        } else {
            BoxKind::Unknown
        }
    }

    /// Whether boxes of this kind hold other boxes.
    pub open spec fn is_container(self) -> bool {
        self == BoxKind::Movie || self == BoxKind::Track || self == BoxKind::Media || self
            == BoxKind::MediaInfo || self == BoxKind::SampleTable || self
            == BoxKind::DataInformation || self == BoxKind::Edit
    }

    /// The kind of a box type.
    pub fn classify(box_type: &BoxType) -> (k: BoxKind)
        ensures
            k == BoxKind::of(box_type@),
    {
        if box_type.is('f', 't', 'y', 'p') {
            BoxKind::FileType
        } else if box_type.is('m', 'o', 'o', 'v') {
            BoxKind::Movie
        } else if box_type.is('m', 'v', 'h', 'd') {
            BoxKind::MovieHeader
        } else if box_type.is('t', 'r', 'a', 'k') {
            BoxKind::Track
        } else if box_type.is('t', 'k', 'h', 'd') {
            BoxKind::TrackHeader
        } else if box_type.is('m', 'd', 'a', 't') {
            BoxKind::MediaData
        } else if box_type.is('e', 'd', 't', 's') {
            BoxKind::Edit
        } else if box_type.is('e', 'l', 's', 't') {
            BoxKind::EditList
        } else if box_type.is('m', 'd', 'i', 'a') {
            BoxKind::Media
        } else if box_type.is('m', 'd', 'h', 'd') {
            BoxKind::MediaHeader
        } else if box_type.is('h', 'd', 'l', 'r') {
            BoxKind::Handler
        } else if box_type.is('m', 'i', 'n', 'f') {
            BoxKind::MediaInfo
        } else if box_type.is('v', 'm', 'h', 'd') {
            BoxKind::VideoMediaHeader
        } else if box_type.is('s', 'm', 'h', 'd') {
            BoxKind::SoundMediaHeader
        } else if box_type.is('s', 't', 'b', 'l') {
            BoxKind::SampleTable
        } else if box_type.is('s', 't', 's', 'd') {
            BoxKind::SampleDescription
        } else if box_type.is('s', 't', 't', 's') {
            BoxKind::TimeToSample
        } else if box_type.is('s', 't', 's', 'c') {
            BoxKind::SampleToChunk
        } else if box_type.is('s', 't', 's', 'z') {
            BoxKind::SampleSize
        } else if box_type.is('s', 't', 'c', 'o') {
            BoxKind::ChunkOffset
        } else if box_type.is('d', 'i', 'n', 'f') {
            BoxKind::DataInformation
        } else if box_type.is('d', 'r', 'e', 'f') {
            BoxKind::DataReference
        } else {
            BoxKind::Unknown
        }
    }

    /// Whether boxes of this kind hold other boxes.
    pub fn holds_boxes(&self) -> (r: bool)
        ensures
            r == self.is_container(),
    {
        match self {
            BoxKind::Movie | BoxKind::Track | BoxKind::Media | BoxKind::MediaInfo
            | BoxKind::SampleTable | BoxKind::DataInformation | BoxKind::Edit => true,
            _ => false,
        }
    }
}

/// The header of a box: its type, its declared size with the header counted
/// in, and the length of the header itself.
#[derive(Clone, Copy, Debug)]
pub struct BoxHeader {
    pub box_type: BoxType,
    pub size: u64,
    pub header_size: u64,
}

/// Mathematical value of a [`BoxHeader`].
pub struct BoxHeaderView {
    pub code: Seq<u8>,
    pub size: u64,
    pub header_size: u64,
}

impl View for BoxHeader {
    type V = BoxHeaderView;

    open spec fn view(&self) -> BoxHeaderView {
        BoxHeaderView { code: self.box_type@, size: self.size, header_size: self.header_size }
    }
}

/// The header that stands at offset `at`: a 32-bit size and a four-byte
/// type; where the size field is 1, the size is the 64-bit number that follows
/// the type, and the header is sixteen bytes long instead of eight.
pub open spec fn header_at(data: Seq<u8>, at: int) -> Option<BoxHeaderView> {
    if !readable(data, at, 8) {
        None
    } else if be_u32(data, at) == 1 {
        if readable(data, at, 16) {
            Some(BoxHeaderView { code: bytes_at(data, at + 4, 4), size: be_u64(data, at + 8), header_size: 16 })
        } else {
            None
        }
    } else {
        Some(BoxHeaderView { code: bytes_at(data, at + 4, 4), size: be_u32(data, at) as u64, header_size: 8 })
    }
}

/// The header at offset `at`, where the box it announces holds at least its
/// own header and ends at or before `limit`.
pub open spec fn fitting_header_at(data: Seq<u8>, at: int, limit: int) -> Option<BoxHeaderView> {
    match header_at(data, at) {
        Some(h) => if h.size >= h.header_size && at + h.size <= limit {
            Some(h)
        } else {
            None
        },
        None => None,
    }
}

/// What a box of kind `kind` holds, read from a payload of `size` bytes at
/// offset `at`.  Containers, media data and boxes of unknown type decode
/// nothing and so never fail.
pub open spec fn payload_at(kind: BoxKind, data: Seq<u8>, at: int, size: int) -> Option<BoxDataView> {
    match kind {
        BoxKind::FileType => match FileTypeView::decode(data, at, size) {
            Some(v) => Some(BoxDataView::FileType(v)),
            None => None,
        },
        BoxKind::MovieHeader => match MovieHeaderView::decode(data, at, size) {
            Some(v) => Some(BoxDataView::MovieHeader(v)),
            None => None,
        },
        BoxKind::TrackHeader => match TrackHeaderView::decode(data, at, size) {
            Some(v) => Some(BoxDataView::TrackHeader(v)),
            None => None,
        },
        BoxKind::EditList => match EditListView::decode(data, at, size) {
            Some(v) => Some(BoxDataView::EditList(v)),
            None => None,
        },
        BoxKind::MediaHeader => match MediaHeaderView::decode(data, at, size) {
            Some(v) => Some(BoxDataView::MediaHeader(v)),
            None => None,
        },
        BoxKind::Handler => match HandlerView::decode(data, at, size) {
            Some(v) => Some(BoxDataView::Handler(v)),
            None => None,
        },
        BoxKind::VideoMediaHeader => match VideoMediaHeaderView::decode(data, at, size) {
            Some(v) => Some(BoxDataView::VideoMediaHeader(v)),
            None => None,
        },
        BoxKind::SoundMediaHeader => match SoundMediaHeaderBox::decode(data, at, size) {
            Some(v) => Some(BoxDataView::SoundMediaHeader(v)),
            None => None,
        },
        BoxKind::SampleDescription => match SampleDescriptionView::decode(data, at, size) {
            Some(v) => Some(BoxDataView::SampleDescription(v)),
            None => None,
        },
        BoxKind::TimeToSample => match TimeToSampleView::decode(data, at, size) {
            Some(v) => Some(BoxDataView::TimeToSample(v)),
            None => None,
        },
        BoxKind::SampleToChunk => match SampleToChunkView::decode(data, at, size) {
            Some(v) => Some(BoxDataView::SampleToChunk(v)),
            None => None,
        },
        BoxKind::SampleSize => match SampleSizeView::decode(data, at, size) {
            Some(v) => Some(BoxDataView::SampleSize(v)),
            None => None,
        },
        BoxKind::ChunkOffset => match ChunkOffsetView::decode(data, at, size) {
            Some(v) => Some(BoxDataView::ChunkOffset(v)),
            None => None,
        },
        BoxKind::DataReference => match DataReferenceView::decode(data, at, size) {
            Some(v) => Some(BoxDataView::DataReference(v)),
            None => None,
        },
        BoxKind::Movie => Some(BoxDataView::Movie),
        BoxKind::Track => Some(BoxDataView::Track(Seq::empty())),
        BoxKind::Edit => Some(BoxDataView::Edit),
        BoxKind::Media => Some(BoxDataView::Media(Seq::empty())),
        BoxKind::MediaInfo => Some(BoxDataView::MediaInfo(Seq::empty())),
        BoxKind::SampleTable => Some(BoxDataView::SampleTable(Seq::empty())),
        BoxKind::DataInformation => Some(BoxDataView::DataInformation),
        BoxKind::MediaData => Some(BoxDataView::MediaData(MediaDataBox { data_size: size as u64 })),
        BoxKind::Unknown => Some(BoxDataView::Unknown),
    }
}

/// The box with header `h` at offset `at`: its payload decoded by its kind
/// and, for a container, the boxes between the end of its header and its own
/// end.
pub open spec fn box_with(data: Seq<u8>, at: int, h: BoxHeaderView) -> Option<BoxView>
    decreases h.size, 0nat,
{
    if h.header_size > 0 && h.size >= h.header_size {
        match payload_at(BoxKind::of(h.code), data, at + h.header_size, h.size - h.header_size) {
            Some(d) => Some(
                BoxView {
                    box_type: h.code,
                    size: h.size,
                    offset: at as u64,
                    data: d,
                    children: if BoxKind::of(h.code).is_container() {
                        boxes_in(data, at + h.header_size, at + h.size)
                    } else {
                        Seq::empty()
                    },
                },
            ),
            None => None,
        }
    } else {
        None
    }
}

/// The boxes that stand one after another from offset `at` on, up to the
/// first that cannot be decoded or would end after `end`.
pub open spec fn boxes_in(data: Seq<u8>, at: int, end: int) -> Seq<BoxView>
    decreases end - at, 1nat,
{
    if at >= end {
        Seq::empty()
    } else {
        match fitting_header_at(data, at, end) {
            Some(h) => match box_with(data, at, h) {
                Some(b) => seq![b] + boxes_in(data, at + h.size, end),
                None => Seq::empty(),
            },
            None => Seq::empty(),
        }
    }
}

/// The box at offset `at` that ends at or before `limit`.
pub open spec fn box_at(data: Seq<u8>, at: int, limit: int) -> Option<BoxView> {
    match fitting_header_at(data, at, limit) {
        Some(h) => box_with(data, at, h),
        None => None,
    }
}

/// Where a list of boxes that began at `from` ends: after its last box, or
/// at `from` where it is empty.
pub open spec fn end_of(boxes: Seq<BoxView>, from: int) -> int {
    if boxes.len() == 0 {
        from
    } else {
        boxes.last().offset + boxes.last().size
    }
}

/// The boxes decoded from offset `at` on follow one another without a gap:
/// the first begins at `at`, each next one begins where the one before it
/// ends, and none ends after `end`.  Each of them is the box decoded at its
/// own offset.
pub proof fn siblings_follow_one_another(data: Seq<u8>, at: int, end: int)
    requires
        0 <= at,
        end <= u64::MAX,
    ensures
        ({
            let boxes = boxes_in(data, at, end);
            &&& boxes.len() > 0 ==> boxes[0].offset == at
            &&& forall|i: int|
                0 <= i < boxes.len() - 1 ==> (#[trigger] boxes[i]).offset + boxes[i].size == boxes[i
                    + 1].offset
            &&& forall|i: int|
                0 <= i < boxes.len() ==> at <= (#[trigger] boxes[i]).offset && boxes[i].offset
                    + boxes[i].size <= end && boxes[i].size >= 8
            &&& forall|i: int|
                0 <= i < boxes.len() ==> box_at(data, (#[trigger] boxes[i]).offset as int, end) == Some(
                    boxes[i],
                )
        }),
    decreases end - at,
{
    let boxes = boxes_in(data, at, end);
    if at < end {
        match fitting_header_at(data, at, end) {
            Some(h) => match box_with(data, at, h) {
                Some(b) => {
                    let rest = boxes_in(data, at + h.size, end);
                    siblings_follow_one_another(data, at + h.size, end);
                    assert(boxes =~= seq![b] + rest);
                    assert(boxes[0] == b);
                    assert forall|i: int| 0 <= i < boxes.len() - 1 implies (#[trigger] boxes[i]).offset
                        + boxes[i].size == boxes[i + 1].offset by {
                        if i > 0 {
                            assert(boxes[i] == rest[i - 1]);
                            assert(boxes[i + 1] == rest[i]);
                        } else {
                            assert(boxes[1] == rest[0]);
                        }
                    }
                    assert forall|i: int| 0 <= i < boxes.len() implies at <= (#[trigger] boxes[i]).offset
                        && boxes[i].offset + boxes[i].size <= end && boxes[i].size >= 8 && box_at(
                        data,
                        boxes[i].offset as int,
                        end,
                    ) == Some(boxes[i]) by {
                        if i > 0 {
                            assert(boxes[i] == rest[i - 1]);
                        }
                    }
                },
                None => {},
            },
            None => {},
        }
    }
}

/// The boxes decoded between `at` and `end` reach `end`, unless the box that
/// would come next cannot be decoded: the last child of a container ends
/// where the container ends exactly when every child could be decoded.
pub proof fn children_end_where_decoding_ends(data: Seq<u8>, at: int, end: int)
    requires
        0 <= at <= end <= u64::MAX,
    ensures
        ({
            let stop = end_of(boxes_in(data, at, end), at);
            at <= stop <= end && (stop == end || box_at(data, stop, end) is None)
        }),
    decreases end - at,
{
    let boxes = boxes_in(data, at, end);
    if at < end {
        match fitting_header_at(data, at, end) {
            Some(h) => match box_with(data, at, h) {
                Some(b) => {
                    let rest = boxes_in(data, at + h.size, end);
                    children_end_where_decoding_ends(data, at + h.size, end);
                    assert(boxes =~= seq![b] + rest);
                    if rest.len() > 0 {
                        assert(boxes.last() == rest.last());
                    } else {
                        assert(boxes.last() == b);
                    }
                },
                None => {},
            },
            None => {},
        }
    }
}

/// A box decoded at offset `at` lies at `at`, has the size its header
/// declares, and holds, where it is a container, the boxes decoded between the
/// end of its header and its own end, and no boxes otherwise.
pub proof fn children_lie_inside(data: Seq<u8>, at: int, limit: int)
    requires
        0 <= at,
        limit <= u64::MAX,
        box_at(data, at, limit) is Some,
    ensures
        ({
            let b = box_at(data, at, limit)->0;
            let h = header_at(data, at)->0;
            &&& b.offset == at
            &&& b.size == h.size
            &&& h.header_size <= b.size
            &&& at + b.size <= limit
            &&& b.children == if BoxKind::of(b.box_type).is_container() {
                boxes_in(data, at + h.header_size, at + b.size)
            } else {
                Seq::empty()
            }
        }),
{
}

/// A box whose 32-bit size field is 1 has the size that the eight bytes after
/// its type declare, and a header of sixteen bytes: its payload begins
/// sixteen bytes after its offset and is sixteen bytes shorter than the box.
pub proof fn size_one_selects_extended_size(data: Seq<u8>, at: int, limit: int)
    requires
        0 <= at,
        limit <= u64::MAX,
        be_u32(data, at) == 1,
        box_at(data, at, limit) is Some,
    ensures
        ({
            let b = box_at(data, at, limit)->0;
            &&& header_at(data, at)->0.header_size == 16
            &&& b.size == be_u64(data, at + 8)
            &&& b.size >= 16
            &&& Some(b.data) == payload_at(BoxKind::of(b.box_type), data, at + 16, b.size - 16)
            &&& b.children == if BoxKind::of(b.box_type).is_container() {
                boxes_in(data, at + 16, at + b.size)
            } else {
                Seq::empty()
            }
        }),
{
}

/// A box whose 32-bit size field is not 1 has that size and a header of
/// eight bytes.
pub proof fn other_sizes_are_taken_as_they_are(data: Seq<u8>, at: int, limit: int)
    requires
        0 <= at,
        limit <= u64::MAX,
        be_u32(data, at) != 1,
        box_at(data, at, limit) is Some,
    ensures
        ({
            let b = box_at(data, at, limit)->0;
            &&& header_at(data, at)->0.header_size == 8
            &&& b.size == be_u32(data, at)
            &&& Some(b.data) == payload_at(BoxKind::of(b.box_type), data, at + 8, b.size - 8)
        }),
{
}

/// The eight bytes of the header of a box of type `code` and size `size`.
pub open spec fn header_bytes(code: Seq<u8>, size: u32) -> Seq<u8> {
    u32_bytes(size) + code
}

/// The sixteen bytes of the header of a box of type `code` whose size `size`
/// is written in 64 bits.
pub open spec fn extended_header_bytes(code: Seq<u8>, size: u64) -> Seq<u8> {
    u32_bytes(1) + code + u64_bytes(size)
}

/// The box that a header and what its payload decodes to make up.
pub open spec fn assembled(data: Seq<u8>, at: int, h: BoxHeaderView, content: BoxDataView) -> BoxView {
    BoxView {
        box_type: h.code,
        size: h.size,
        offset: at as u64,
        data: content,
        children: if BoxKind::of(h.code).is_container() {
            boxes_in(data, at + h.header_size, at + h.size)
        } else {
            Seq::empty()
        },
    }
}

/// A box written down with a header of eight bytes is read back: where its
/// header stands at offset `at` and its payload decodes to `content`, the box
/// at `at` has the type and size of the header and holds `content`.
pub proof fn box_reads_back(data: Seq<u8>, at: int, limit: int, code: Seq<u8>, size: u32, content: BoxDataView)
    requires
        limit <= u64::MAX,
        code.len() == 4,
        size >= 8,
        at + size <= limit,
        holds(data, at, header_bytes(code, size)),
        payload_at(BoxKind::of(code), data, at + 8, size - 8) == Some(content),
    ensures
        header_at(data, at) == Some(BoxHeaderView { code, size: size as u64, header_size: 8 }),
        box_at(data, at, limit) == Some(
            assembled(data, at, BoxHeaderView { code, size: size as u64, header_size: 8 }, content),
        ),
{
    holds_both(data, at, u32_bytes(size), code);
    reads_back_u32(data, at, size);
}

/// A box written down with a header of sixteen bytes is read back in the
/// same way.
pub proof fn extended_box_reads_back(
    data: Seq<u8>,
    at: int,
    limit: int,
    code: Seq<u8>,
    size: u64,
    content: BoxDataView,
)
    requires
        limit <= u64::MAX,
        code.len() == 4,
        size >= 16,
        at + size <= limit,
        holds(data, at, extended_header_bytes(code, size)),
        payload_at(BoxKind::of(code), data, at + 16, size - 16) == Some(content),
    ensures
        header_at(data, at) == Some(BoxHeaderView { code, size, header_size: 16 }),
        box_at(data, at, limit) == Some(assembled(data, at, BoxHeaderView { code, size, header_size: 16 }, content)),
{
    holds_both(data, at, u32_bytes(1) + code, u64_bytes(size));
    holds_both(data, at, u32_bytes(1), code);
    reads_back_u32(data, at, 1);
    reads_back_u64(data, at + 8, size);
}

/// A list of boxes begins with the box at its first offset and goes on after
/// it; it is empty where that box cannot be decoded.
pub proof fn list_begins_with_first_box(data: Seq<u8>, at: int, end: int)
    requires
        at < end,
    ensures
        boxes_in(data, at, end) == match box_at(data, at, end) {
            Some(b) => seq![b] + boxes_in(data, at + b.size, end),
            None => Seq::empty(),
        },
{
}

/// Decoder of a box tree over a byte stream.
pub struct BoxParser {
    reader: Reader,
    debug: bool,
}

impl BoxParser {
    /// The bytes of the stream.
    pub closed spec fn bytes(&self) -> Seq<u8> {
        self.reader.bytes()
    }

    /// The position of the next read.
    pub closed spec fn pos(&self) -> u64 {
        self.reader.pos()
    }

    /// Whether diagnostics are asked for.
    pub closed spec fn debug(&self) -> bool {
        self.debug
    }

    /// A parser that continues where `reader` stands.
    pub fn new(reader: Reader) -> (p: BoxParser)
        ensures
            p.bytes() == reader.bytes(),
            p.pos() == reader.pos(),
            p.debug(),
    {
        BoxParser { reader, debug: true }
    }

    /// Asks for diagnostics, or not.  What is parsed does not depend on it.
    pub fn set_debug(&mut self, debug: bool)
        ensures
            final(self).bytes() == old(self).bytes(),
            final(self).pos() == old(self).pos(),
            final(self).debug() == debug,
    {
        self.debug = debug;
    }

    /// Decodes the boxes from the current position on, up to the first that
    /// cannot be decoded.  A failure ends the list and is not reported; the
    /// position is then the end of the last box decoded.
    pub fn parse_boxes(&mut self) -> (r: Result<Vec<Box>, MediaError>)
        ensures
            final(self).bytes() == old(self).bytes(),
            r matches Ok(boxes) && box_views(boxes@) == boxes_in(
                old(self).bytes(),
                old(self).pos() as int,
                u64::MAX as int,
            ),
            final(self).pos() == end_of(
                boxes_in(old(self).bytes(), old(self).pos() as int, u64::MAX as int),
                old(self).pos() as int,
            ),
    {
        let mut boxes: Vec<Box> = Vec::new();
        let ghost data = self.bytes();
        let ghost start = self.pos() as int;
        assert(box_views(boxes@) =~= Seq::empty());
        loop
            invariant_except_break
                self.bytes() == data,
                start <= self.pos(),
                boxes_in(data, start, u64::MAX as int) == box_views(boxes@) + boxes_in(
                    data,
                    self.pos() as int,
                    u64::MAX as int,
                ),
                self.pos() == end_of(box_views(boxes@), start),
            ensures
                self.bytes() == data,
                box_views(boxes@) == boxes_in(data, start, u64::MAX as int),
                self.pos() == end_of(box_views(boxes@), start),
            decreases u64::MAX - self.pos(),
        {
            let ghost at = self.pos() as int;
            let ghost before = box_views(boxes@);
            let here: u64 = self.reader.position();
            match self.parse_box(u64::MAX) {
                Ok(b) => {
                    boxes.push(b);
                    proof {
                        assert(box_views(boxes@) =~= before.push(b@));
                        assert(box_views(boxes@).last() == b@);
                        children_lie_inside(data, at, u64::MAX as int);
                        assert(before + (seq![b@] + boxes_in(data, self.pos() as int, u64::MAX as int))
                            =~= box_views(boxes@) + boxes_in(data, self.pos() as int, u64::MAX as int));
                    }
                },
                Err(_) => {
                    let _ = self.reader.seek(SeekFrom::Start(here));
                    proof {
                        assert(boxes_in(data, at, u64::MAX as int) =~= Seq::empty());
                        assert(before + Seq::<BoxView>::empty() =~= before);
                    }
                    break ;
                },
            }
        }
        Ok(boxes)
    }

    /// Reads the header of the box at the current position.
    fn read_header(&mut self) -> (r: Result<BoxHeader, MediaError>)
        ensures
            final(self).bytes() == old(self).bytes(),
            r is Ok <==> header_at(old(self).bytes(), old(self).pos() as int) is Some,
            r matches Ok(h) ==> Some(h@) == header_at(old(self).bytes(), old(self).pos() as int)
                && final(self).pos() == old(self).pos() + h.header_size,
    {
        let ghost data = self.bytes();
        let ghost at = self.pos() as int;
        let size: u32 = self.reader.read_u32()?;
        let mut code: [u8; 4] = [0u8; 4];
        self.reader.read_exact(&mut code)?;
        let box_type = BoxType::new(code);
        proof {
            assert(box_type@ =~= bytes_at(data, at + 4, 4));
        }
        if size == 1 {
            let large: u64 = self.reader.read_u64()?;
            Ok(BoxHeader { box_type, size: large, header_size: 16 })
        } else {
            Ok(BoxHeader { box_type, size: size as u64, header_size: 8 })
        }
    }

    /// Decodes the box at the current position, which must end at or before
    /// `limit`, with the boxes inside it.  On success the position is the end
    /// of the box.
    fn parse_box(&mut self, limit: u64) -> (r: Result<Box, MediaError>)
        requires
            old(self).pos() <= limit,
        ensures
            final(self).bytes() == old(self).bytes(),
            r is Ok <==> box_at(old(self).bytes(), old(self).pos() as int, limit as int) is Some,
            r matches Ok(b) ==> Some(b@) == box_at(old(self).bytes(), old(self).pos() as int, limit as int)
                && final(self).pos() == old(self).pos() + b.size && b.size >= 8,
        decreases limit - old(self).pos(),
    {
        let ghost data = self.bytes();
        let offset: u64 = self.reader.position();
        let header = self.read_header()?;
        if header.size < header.header_size {
            return Err(MediaError::InvalidBoxSize);
        }
        if header.size > limit - offset {
            return Err(MediaError::InvalidBoxSize);
        }
        let end_offset: u64 = offset + header.size;
        let payload_size: u64 = header.size - header.header_size;
        let ghost payload = offset + header.header_size;
        let kind = BoxKind::classify(&header.box_type);
        let box_data = self.parse_payload(kind, payload_size)?;
        let mut box_info = Box::new(header.box_type, header.size, offset, box_data);
        if kind.holds_boxes() {
            while self.reader.position() < end_offset
                invariant_except_break
                    self.bytes() == data,
                    payload <= self.pos() <= end_offset,
                    end_offset <= limit,
                    offset + 8 <= payload,
                    offset == old(self).pos(),
                    box_info@.box_type == header@.code,
                    box_info@.size == header.size,
                    box_info@.offset == offset,
                    Some(box_info@.data) == payload_at(kind, data, payload as int, payload_size as int),
                    boxes_in(data, payload as int, end_offset as int) == box_info@.children + boxes_in(
                        data,
                        self.pos() as int,
                        end_offset as int,
                    ),
                ensures
                    self.bytes() == data,
                    self.pos() == end_offset,
                    box_info@.box_type == header@.code,
                    box_info@.size == header.size,
                    box_info@.offset == offset,
                    Some(box_info@.data) == payload_at(kind, data, payload as int, payload_size as int),
                    box_info@.children == boxes_in(data, payload as int, end_offset as int),
                decreases end_offset - self.pos(),
            {
                let ghost at = self.pos() as int;
                let ghost before = box_info@.children;
                match self.parse_box(end_offset) {
                    Ok(child) => {
                        box_info.add_child(child);
                        proof {
                            assert(before + (seq![child@] + boxes_in(
                                data,
                                self.pos() as int,
                                end_offset as int,
                            )) =~= box_info@.children + boxes_in(data, self.pos() as int, end_offset as int));
                        }
                    },
                    Err(_) => {
                        let _ = self.reader.seek(SeekFrom::Start(end_offset));
                        proof {
                            assert(boxes_in(data, at, end_offset as int) =~= Seq::empty());
                            assert(before + Seq::<BoxView>::empty() =~= before);
                        }
                        break ;
                    },
                }
            }
            proof {
                assert(boxes_in(data, self.pos() as int, end_offset as int) =~= Seq::empty());
                assert(box_info@.children + Seq::<BoxView>::empty() =~= box_info@.children);
            }
        }
        Ok(box_info)
    }

    /// Decodes the payload of `size` bytes at the current position as a box
    /// of kind `kind`.  On success the position is the end of the payload.
    fn parse_payload(&mut self, kind: BoxKind, size: u64) -> (r: Result<BoxData, MediaError>)
        requires
            old(self).pos() + size <= u64::MAX,
        ensures
            final(self).bytes() == old(self).bytes(),
            r is Ok <==> payload_at(kind, old(self).bytes(), old(self).pos() as int, size as int) is Some,
            r matches Ok(d) ==> Some(d@) == payload_at(kind, old(self).bytes(), old(self).pos() as int, size as int)
                && final(self).pos() == if kind.is_container() {
                old(self).pos() as int
            } else {
                old(self).pos() + size
            },
    {
        match kind {
            BoxKind::FileType => Ok(BoxData::FileType(self.parse_ftyp(size)?)),
            BoxKind::Movie => Ok(BoxData::Movie(self.parse_moov(size)?)),
            BoxKind::MovieHeader => Ok(BoxData::MovieHeader(self.parse_mvhd(size)?)),
            BoxKind::Track => Ok(BoxData::Track(self.parse_trak(size)?)),
            BoxKind::TrackHeader => Ok(BoxData::TrackHeader(self.parse_tkhd(size)?)),
            BoxKind::MediaData => Ok(BoxData::MediaData(self.parse_mdat(size)?)),
            BoxKind::Edit => Ok(BoxData::Edit(self.parse_edts(size)?)),
            BoxKind::EditList => Ok(BoxData::EditList(self.parse_elst(size)?)),
            BoxKind::Media => Ok(BoxData::Media(self.parse_mdia(size)?)),
            BoxKind::MediaHeader => Ok(BoxData::MediaHeader(self.parse_mdhd(size)?)),
            BoxKind::Handler => Ok(BoxData::Handler(self.parse_hdlr(size)?)),
            BoxKind::MediaInfo => Ok(BoxData::MediaInfo(self.parse_minf(size)?)),
            BoxKind::VideoMediaHeader => Ok(BoxData::VideoMediaHeader(self.parse_vmhd(size)?)),
            BoxKind::SoundMediaHeader => Ok(BoxData::SoundMediaHeader(self.parse_smhd(size)?)),
            BoxKind::SampleTable => Ok(BoxData::SampleTable(self.parse_stbl(size)?)),
            BoxKind::SampleDescription => Ok(BoxData::SampleDescription(self.parse_stsd(size)?)),
            BoxKind::TimeToSample => Ok(BoxData::TimeToSample(self.parse_stts(size)?)),
            BoxKind::SampleToChunk => Ok(BoxData::SampleToChunk(self.parse_stsc(size)?)),
            BoxKind::SampleSize => Ok(BoxData::SampleSize(self.parse_stsz(size)?)),
            BoxKind::ChunkOffset => Ok(BoxData::ChunkOffset(self.parse_stco(size)?)),
            BoxKind::DataInformation => Ok(BoxData::DataInformation(self.parse_dinf(size)?)),
            BoxKind::DataReference => Ok(BoxData::DataReference(self.parse_dref(size)?)),
            BoxKind::Unknown => {
                self.reader.skip(size)?;
                Ok(BoxData::Unknown)
            },
        }
    }

    /// Moves to the end of a payload of `size` bytes that began at `start`.
    fn finish_payload(&mut self, start: u64, size: u64) -> (r: Result<(), MediaError>)
        requires
            start <= old(self).pos() <= start + size <= u64::MAX,
        ensures
            final(self).bytes() == old(self).bytes(),
            r is Ok,
            final(self).pos() == start + size,
    {
        let consumed: u64 = self.reader.position() - start;
        self.reader.skip(size - consumed)
    }

    fn parse_ftyp(&mut self, size: u64) -> (r: Result<FileTypeBox, MediaError>)
        requires
            old(self).pos() + size <= u64::MAX,
        ensures
            final(self).bytes() == old(self).bytes(),
            r is Ok <==> FileTypeView::decode(old(self).bytes(), old(self).pos() as int, size as int) is Some,
            r matches Ok(b) ==> Some(b@) == FileTypeView::decode(
                old(self).bytes(),
                old(self).pos() as int,
                size as int,
            ) && final(self).pos() == old(self).pos() + size,
    {
        let ghost data = self.bytes();
        let start: u64 = self.reader.position();
        if size < 8 {
            return Err(MediaError::InvalidBoxSize);
        }
        let num_brands: u64 = (size - 8) / 4;
        let major_brand = self.reader.read_fixed_string(4)?;
        let minor_version: u32 = self.reader.read_u32()?;
        let mut compatible_brands: Vec<String> = Vec::new();
        let mut i: u64 = 0;
        while i < num_brands
            invariant
                self.bytes() == data,
                data == old(self).bytes(),
                start == old(self).pos(),
                i <= num_brands,
                num_brands == FileTypeView::brand_count(size as int),
                start + size <= u64::MAX,
                size >= 8,
                self.pos() == start + 8 + 4 * i,
                readable(data, start as int, 8 + 4 * i),
                string_views(compatible_brands@) =~= Seq::new(
                    i as nat,
                    |j: int| lossy_text(bytes_at(data, start + 8 + 4 * j, 4)),
                ),
            decreases num_brands - i,
        {
            let ghost before = string_views(compatible_brands@);
            let brand = self.reader.read_fixed_string(4)?;
            compatible_brands.push(brand);
            proof {
                assert(string_views(compatible_brands@) =~= before.push(brand@));
            }
            i = i + 1;
        }
        self.finish_payload(start, size)?;
        Ok(FileTypeBox::new(major_brand, minor_version, compatible_brands))
    }

    fn parse_moov(&mut self, _size: u64) -> (r: Result<MovieBox, MediaError>)
        ensures
            final(self).bytes() == old(self).bytes(),
            final(self).pos() == old(self).pos(),
            r is Ok,
    {
        Ok(MovieBox::new())
    }

    fn parse_trak(&mut self, _size: u64) -> (r: Result<TrackBox, MediaError>)
        ensures
            final(self).bytes() == old(self).bytes(),
            final(self).pos() == old(self).pos(),
            r matches Ok(b) && b@ == Seq::<BoxView>::empty(),
    {
        Ok(TrackBox::new())
    }

    fn parse_edts(&mut self, _size: u64) -> (r: Result<EditBox, MediaError>)
        ensures
            final(self).bytes() == old(self).bytes(),
            final(self).pos() == old(self).pos(),
            r is Ok,
    {
        Ok(EditBox::new())
    }

    fn parse_mdia(&mut self, _size: u64) -> (r: Result<MediaBox, MediaError>)
        ensures
            final(self).bytes() == old(self).bytes(),
            final(self).pos() == old(self).pos(),
            r matches Ok(b) && b@ == Seq::<BoxView>::empty(),
    {
        Ok(MediaBox::new())
    }

    fn parse_minf(&mut self, _size: u64) -> (r: Result<MediaInfoBox, MediaError>)
        ensures
            final(self).bytes() == old(self).bytes(),
            final(self).pos() == old(self).pos(),
            r matches Ok(b) && b@ == Seq::<BoxView>::empty(),
    {
        Ok(MediaInfoBox::new())
    }

    fn parse_stbl(&mut self, _size: u64) -> (r: Result<SampleTableBox, MediaError>)
        ensures
            final(self).bytes() == old(self).bytes(),
            final(self).pos() == old(self).pos(),
            r matches Ok(b) && b@ == Seq::<BoxView>::empty(),
    {
        Ok(SampleTableBox::new())
    }

    fn parse_dinf(&mut self, _size: u64) -> (r: Result<DataInformationBox, MediaError>)
        ensures
            final(self).bytes() == old(self).bytes(),
            final(self).pos() == old(self).pos(),
            r is Ok,
    {
        Ok(DataInformationBox::new())
    }

    /// The payload is passed over, not read.
    fn parse_mdat(&mut self, size: u64) -> (r: Result<MediaDataBox, MediaError>)
        requires
            old(self).pos() + size <= u64::MAX,
        ensures
            final(self).bytes() == old(self).bytes(),
            final(self).pos() == old(self).pos() + size,
            r matches Ok(b) && b.data_size == size,
    {
        self.reader.skip(size)?;
        Ok(MediaDataBox::new(size))
    }

    fn parse_mvhd(&mut self, size: u64) -> (r: Result<MovieHeaderBox, MediaError>)
        requires
            old(self).pos() + size <= u64::MAX,
        ensures
            final(self).bytes() == old(self).bytes(),
            r is Ok <==> MovieHeaderView::decode(old(self).bytes(), old(self).pos() as int, size as int) is Some,
            r matches Ok(b) ==> Some(b@) == MovieHeaderView::decode(
                old(self).bytes(),
                old(self).pos() as int,
                size as int,
            ) && final(self).pos() == old(self).pos() + size,
    {
        let ghost data = self.bytes();
        let start: u64 = self.reader.position();
        let version: u8 = self.reader.read_u8()?;
        let flags: u32 = self.reader.read_u24()?;
        let needed: u64 = if version == 1 { 112 } else { 100 };
        if size < needed {
            return Err(MediaError::InvalidBoxSize);
        }
        let creation: u64;
        let modification: u64;
        let timescale: u32;
        let duration: u64;
        if version == 1 {
            creation = self.reader.read_u64()?;
            modification = self.reader.read_u64()?;
            timescale = self.reader.read_u32()?;
            duration = self.reader.read_u64()?;
        } else {
            creation = self.reader.read_u32()? as u64;
            modification = self.reader.read_u32()? as u64;
            timescale = self.reader.read_u32()?;
            duration = self.reader.read_u32()? as u64;
        }
        let ghost rest = self.pos() as int;
        let rate = Fixed16_16::new(self.reader.read_i32()?);
        let volume_raw: u16 = self.reader.read_u16()?;
        let volume = Fixed16_16::new((volume_raw as i32) * 256);
        self.reader.skip(2)?;
        self.reader.skip(8)?;
        let matrix = self.read_matrix()?;
        self.reader.read_u32()?;
        self.reader.read_u32()?;
        self.reader.read_u32()?;
        self.reader.read_u32()?;
        self.reader.read_u32()?;
        self.reader.read_u32()?;
        let next_track_id: u32 = self.reader.read_u32()?;
        self.finish_payload(start, size)?;
        let b = MovieHeaderBox::new(
            version,
            flags,
            Mp4DateTime::new(creation),
            Mp4DateTime::new(modification),
            timescale,
            duration,
            rate,
            volume,
            matrix,
            next_track_id,
        );
        proof {
            let want = MovieHeaderView::decode(data, start as int, size as int);
            assert(want is Some);
            assert(b@.matrix =~= want.unwrap().matrix);
        }
        Ok(b)
    }

    fn parse_tkhd(&mut self, size: u64) -> (r: Result<TrackHeaderBox, MediaError>)
        requires
            old(self).pos() + size <= u64::MAX,
        ensures
            final(self).bytes() == old(self).bytes(),
            r is Ok <==> TrackHeaderView::decode(old(self).bytes(), old(self).pos() as int, size as int) is Some,
            r matches Ok(b) ==> Some(b@) == TrackHeaderView::decode(
                old(self).bytes(),
                old(self).pos() as int,
                size as int,
            ) && final(self).pos() == old(self).pos() + size,
    {
        let ghost data = self.bytes();
        let start: u64 = self.reader.position();
        let version: u8 = self.reader.read_u8()?;
        let flags: u32 = self.reader.read_u24()?;
        let needed: u64 = if version == 1 { 96 } else { 84 };
        if size < needed {
            return Err(MediaError::InvalidBoxSize);
        }
        let creation: u64;
        let modification: u64;
        let track_id: u32;
        let duration: u64;
        if version == 1 {
            creation = self.reader.read_u64()?;
            modification = self.reader.read_u64()?;
            track_id = self.reader.read_u32()?;
            self.reader.skip(4)?;
            duration = self.reader.read_u64()?;
        } else {
            creation = self.reader.read_u32()? as u64;
            modification = self.reader.read_u32()? as u64;
            track_id = self.reader.read_u32()?;
            self.reader.skip(4)?;
            duration = self.reader.read_u32()? as u64;
        }
        self.reader.skip(8)?;
        let layer: i16 = self.reader.read_i16()?;
        let alternate_group: i16 = self.reader.read_i16()?;
        let volume_raw: i16 = self.reader.read_i16()?;
        let volume = Fixed16_16::new((volume_raw as i32) * 256);
        self.reader.skip(2)?;
        let matrix = self.read_matrix()?;
        let width = Fixed16_16::new(self.reader.read_i32()?);
        let height = Fixed16_16::new(self.reader.read_i32()?);
        self.finish_payload(start, size)?;
        let b = TrackHeaderBox::new(
            version,
            flags,
            Mp4DateTime::new(creation),
            Mp4DateTime::new(modification),
            track_id,
            duration,
            layer,
            alternate_group,
            volume,
            matrix,
            width,
            height,
        );
        proof {
            let want = TrackHeaderView::decode(data, start as int, size as int);
            assert(want is Some);
            assert(b@.matrix =~= want.unwrap().matrix);
        }
        Ok(b)
    }

    fn parse_mdhd(&mut self, size: u64) -> (r: Result<MediaHeaderBox, MediaError>)
        requires
            old(self).pos() + size <= u64::MAX,
        ensures
            final(self).bytes() == old(self).bytes(),
            r is Ok <==> MediaHeaderView::decode(old(self).bytes(), old(self).pos() as int, size as int) is Some,
            r matches Ok(b) ==> Some(b@) == MediaHeaderView::decode(
                old(self).bytes(),
                old(self).pos() as int,
                size as int,
            ) && final(self).pos() == old(self).pos() + size,
    {
        let ghost data = self.bytes();
        let start: u64 = self.reader.position();
        let version: u8 = self.reader.read_u8()?;
        let flags: u32 = self.reader.read_u24()?;
        let needed: u64 = if version == 1 { 36 } else { 24 };
        if size < needed {
            return Err(MediaError::InvalidBoxSize);
        }
        let creation: u64;
        let modification: u64;
        let timescale: u32;
        let duration: u64;
        if version == 1 {
            creation = self.reader.read_u64()?;
            modification = self.reader.read_u64()?;
            timescale = self.reader.read_u32()?;
            duration = self.reader.read_u64()?;
        } else {
            creation = self.reader.read_u32()? as u64;
            modification = self.reader.read_u32()? as u64;
            timescale = self.reader.read_u32()?;
            duration = self.reader.read_u32()? as u64;
        }
        let packed: u16 = self.reader.read_u16()?;
        let language = language_string(packed);
        self.reader.skip(2)?;
        self.finish_payload(start, size)?;
        Ok(
            MediaHeaderBox::new(
                version,
                flags,
                Mp4DateTime::new(creation),
                Mp4DateTime::new(modification),
                timescale,
                duration,
                language,
            ),
        )
    }

    fn parse_hdlr(&mut self, size: u64) -> (r: Result<HandlerBox, MediaError>)
        requires
            old(self).pos() + size <= u64::MAX,
        ensures
            final(self).bytes() == old(self).bytes(),
            r is Ok <==> HandlerView::decode(old(self).bytes(), old(self).pos() as int, size as int) is Some,
            r matches Ok(b) ==> Some(b@) == HandlerView::decode(
                old(self).bytes(),
                old(self).pos() as int,
                size as int,
            ) && final(self).pos() == old(self).pos() + size,
    {
        let ghost data = self.bytes();
        let start: u64 = self.reader.position();
        if size < 24 {
            return Err(MediaError::InvalidBoxSize);
        }
        let version: u8 = self.reader.read_u8()?;
        let flags: u32 = self.reader.read_u24()?;
        self.reader.skip(4)?;
        let handler_type = self.reader.read_fixed_string(4)?;
        self.reader.skip(12)?;
        let mut name_bytes = self.reader.read_bytes(size - 24)?;
        strip_trailing_nuls(&mut name_bytes);
        let name = string_from_utf8_lossy(name_bytes.as_slice());
        Ok(HandlerBox::new(version, flags, handler_type, name))
    }

    fn parse_vmhd(&mut self, size: u64) -> (r: Result<VideoMediaHeaderBox, MediaError>)
        requires
            old(self).pos() + size <= u64::MAX,
        ensures
            final(self).bytes() == old(self).bytes(),
            r is Ok <==> VideoMediaHeaderView::decode(old(self).bytes(), old(self).pos() as int, size as int) is Some,
            r matches Ok(b) ==> Some(b@) == VideoMediaHeaderView::decode(
                old(self).bytes(),
                old(self).pos() as int,
                size as int,
            ) && final(self).pos() == old(self).pos() + size,
    {
        let ghost data = self.bytes();
        let start: u64 = self.reader.position();
        if size < 12 {
            return Err(MediaError::InvalidBoxSize);
        }
        let version: u8 = self.reader.read_u8()?;
        let flags: u32 = self.reader.read_u24()?;
        let graphics_mode: u16 = self.reader.read_u16()?;
        let red: u16 = self.reader.read_u16()?;
        let green: u16 = self.reader.read_u16()?;
        let blue: u16 = self.reader.read_u16()?;
        let op_color: [u16; 3] = [red, green, blue];
        self.finish_payload(start, size)?;
        let b = VideoMediaHeaderBox::new(version, flags, graphics_mode, op_color);
        proof {
            let want = VideoMediaHeaderView::decode(data, start as int, size as int);
            assert(b@.op_color =~= want.unwrap().op_color);
        }
        Ok(b)
    }

    fn parse_smhd(&mut self, size: u64) -> (r: Result<SoundMediaHeaderBox, MediaError>)
        requires
            old(self).pos() + size <= u64::MAX,
        ensures
            final(self).bytes() == old(self).bytes(),
            r is Ok <==> SoundMediaHeaderBox::decode(old(self).bytes(), old(self).pos() as int, size as int) is Some,
            r matches Ok(b) ==> Some(b) == SoundMediaHeaderBox::decode(
                old(self).bytes(),
                old(self).pos() as int,
                size as int,
            ) && final(self).pos() == old(self).pos() + size,
    {
        let start: u64 = self.reader.position();
        if size < 8 {
            return Err(MediaError::InvalidBoxSize);
        }
        let version: u8 = self.reader.read_u8()?;
        let flags: u32 = self.reader.read_u24()?;
        let balance_raw: i16 = self.reader.read_i16()?;
        let balance = Fixed16_16::new((balance_raw as i32) * 256);
        self.reader.skip(2)?;
        self.finish_payload(start, size)?;
        Ok(SoundMediaHeaderBox::new(version, flags, balance))
    }

    fn parse_stts(&mut self, size: u64) -> (r: Result<TimeToSampleBox, MediaError>)
        requires
            old(self).pos() + size <= u64::MAX,
        ensures
            final(self).bytes() == old(self).bytes(),
            r is Ok <==> TimeToSampleView::decode(old(self).bytes(), old(self).pos() as int, size as int) is Some,
            r matches Ok(b) ==> Some(b@) == TimeToSampleView::decode(
                old(self).bytes(),
                old(self).pos() as int,
                size as int,
            ) && final(self).pos() == old(self).pos() + size,
    {
        let ghost data = self.bytes();
        let start: u64 = self.reader.position();
        let version: u8 = self.reader.read_u8()?;
        let flags: u32 = self.reader.read_u24()?;
        let entry_count: u32 = self.reader.read_u32()?;
        let count: u64 = entry_count as u64;
        if size < 8 + 8 * count {
            return Err(MediaError::InvalidBoxSize);
        }
        let mut entries: Vec<TimeToSampleEntry> = Vec::new();
        let mut i: u64 = 0;
        while i < count
            invariant
                self.bytes() == data,
                data == old(self).bytes(),
                start == old(self).pos(),
                start + size <= u64::MAX,
                i <= count,
                count == be_u32(data, start + 4),
                size >= 8 + 8 * count,
                self.pos() == start + 8 + 8 * i,
                readable(data, start as int, 8 + 8 * i),
                entries@.len() == i,
                forall|j: int| 0 <= j < i ==> entries@[j] == TimeToSampleView::entry_at(data, start as int, j),
            decreases count - i,
        {
            let sample_count: u32 = self.reader.read_u32()?;
            let sample_delta: u32 = self.reader.read_u32()?;
            entries.push(TimeToSampleEntry::new(sample_count, sample_delta));
            i = i + 1;
        }
        self.finish_payload(start, size)?;
        let b = TimeToSampleBox::new(version, flags, entries);
        proof {
            let want = TimeToSampleView::decode(data, start as int, size as int);
            assert(b@.entries =~= want.unwrap().entries);
        }
        Ok(b)
    }

    fn parse_stsc(&mut self, size: u64) -> (r: Result<SampleToChunkBox, MediaError>)
        requires
            old(self).pos() + size <= u64::MAX,
        ensures
            final(self).bytes() == old(self).bytes(),
            r is Ok <==> SampleToChunkView::decode(old(self).bytes(), old(self).pos() as int, size as int) is Some,
            r matches Ok(b) ==> Some(b@) == SampleToChunkView::decode(
                old(self).bytes(),
                old(self).pos() as int,
                size as int,
            ) && final(self).pos() == old(self).pos() + size,
    {
        let ghost data = self.bytes();
        let start: u64 = self.reader.position();
        let version: u8 = self.reader.read_u8()?;
        let flags: u32 = self.reader.read_u24()?;
        let entry_count: u32 = self.reader.read_u32()?;
        let count: u64 = entry_count as u64;
        if size < 8 + 12 * count {
            return Err(MediaError::InvalidBoxSize);
        }
        let mut entries: Vec<SampleToChunkEntry> = Vec::new();
        let mut i: u64 = 0;
        while i < count
            invariant
                self.bytes() == data,
                data == old(self).bytes(),
                start == old(self).pos(),
                start + size <= u64::MAX,
                i <= count,
                count == be_u32(data, start + 4),
                size >= 8 + 12 * count,
                self.pos() == start + 8 + 12 * i,
                readable(data, start as int, 8 + 12 * i),
                entries@.len() == i,
                forall|j: int| 0 <= j < i ==> entries@[j] == SampleToChunkView::entry_at(data, start as int, j),
            decreases count - i,
        {
            let first_chunk: u32 = self.reader.read_u32()?;
            let samples_per_chunk: u32 = self.reader.read_u32()?;
            let sample_description_index: u32 = self.reader.read_u32()?;
            entries.push(SampleToChunkEntry::new(first_chunk, samples_per_chunk, sample_description_index));
            i = i + 1;
        }
        self.finish_payload(start, size)?;
        let b = SampleToChunkBox::new(version, flags, entries);
        proof {
            let want = SampleToChunkView::decode(data, start as int, size as int);
            assert(b@.entries =~= want.unwrap().entries);
        }
        Ok(b)
    }

    fn parse_stsz(&mut self, size: u64) -> (r: Result<SampleSizeBox, MediaError>)
        requires
            old(self).pos() + size <= u64::MAX,
        ensures
            final(self).bytes() == old(self).bytes(),
            r is Ok <==> SampleSizeView::decode(old(self).bytes(), old(self).pos() as int, size as int) is Some,
            r matches Ok(b) ==> Some(b@) == SampleSizeView::decode(
                old(self).bytes(),
                old(self).pos() as int,
                size as int,
            ) && final(self).pos() == old(self).pos() + size,
    {
        let ghost data = self.bytes();
        let start: u64 = self.reader.position();
        let version: u8 = self.reader.read_u8()?;
        let flags: u32 = self.reader.read_u24()?;
        let sample_size: u32 = self.reader.read_u32()?;
        let sample_count: u32 = self.reader.read_u32()?;
        let count: u64 = if sample_size == 0 { sample_count as u64 } else { 0 };
        if size < 12 + 4 * count {
            return Err(MediaError::InvalidBoxSize);
        }
        let mut entries: Vec<u32> = Vec::new();
        let mut i: u64 = 0;
        while i < count
            invariant
                self.bytes() == data,
                data == old(self).bytes(),
                start == old(self).pos(),
                start + size <= u64::MAX,
                i <= count,
                count == SampleSizeView::listed_sizes(be_u32(data, start + 4), be_u32(data, start + 8)),
                size >= 12 + 4 * count,
                self.pos() == start + 12 + 4 * i,
                readable(data, start as int, 12 + 4 * i),
                entries@.len() == i,
                forall|j: int| 0 <= j < i ==> entries@[j] == be_u32(data, start + 12 + 4 * j),
            decreases count - i,
        {
            let entry_size: u32 = self.reader.read_u32()?;
            entries.push(entry_size);
            i = i + 1;
        }
        self.finish_payload(start, size)?;
        let b = SampleSizeBox::new(version, flags, sample_size, sample_count, entries);
        proof {
            let want = SampleSizeView::decode(data, start as int, size as int);
            assert(b@.entry_sizes =~= want.unwrap().entry_sizes);
        }
        Ok(b)
    }

    fn parse_stco(&mut self, size: u64) -> (r: Result<ChunkOffsetBox, MediaError>)
        requires
            old(self).pos() + size <= u64::MAX,
        ensures
            final(self).bytes() == old(self).bytes(),
            r is Ok <==> ChunkOffsetView::decode(old(self).bytes(), old(self).pos() as int, size as int) is Some,
            r matches Ok(b) ==> Some(b@) == ChunkOffsetView::decode(
                old(self).bytes(),
                old(self).pos() as int,
                size as int,
            ) && final(self).pos() == old(self).pos() + size,
    {
        let ghost data = self.bytes();
        let start: u64 = self.reader.position();
        let version: u8 = self.reader.read_u8()?;
        let flags: u32 = self.reader.read_u24()?;
        let entry_count: u32 = self.reader.read_u32()?;
        let count: u64 = entry_count as u64;
        if size < 8 + 4 * count {
            return Err(MediaError::InvalidBoxSize);
        }
        let mut entries: Vec<u64> = Vec::new();
        let mut i: u64 = 0;
        while i < count
            invariant
                self.bytes() == data,
                data == old(self).bytes(),
                start == old(self).pos(),
                start + size <= u64::MAX,
                i <= count,
                count == be_u32(data, start + 4),
                size >= 8 + 4 * count,
                self.pos() == start + 8 + 4 * i,
                readable(data, start as int, 8 + 4 * i),
                entries@.len() == i,
                forall|j: int| 0 <= j < i ==> entries@[j] == be_u32(data, start + 8 + 4 * j) as u64,
            decreases count - i,
        {
            let offset: u32 = self.reader.read_u32()?;
            entries.push(offset as u64);
            i = i + 1;
        }
        self.finish_payload(start, size)?;
        let b = ChunkOffsetBox::new(version, flags, entries);
        proof {
            let want = ChunkOffsetView::decode(data, start as int, size as int);
            assert(b@.offsets =~= want.unwrap().offsets);
        }
        Ok(b)
    }

    fn parse_elst(&mut self, size: u64) -> (r: Result<EditListBox, MediaError>)
        requires
            old(self).pos() + size <= u64::MAX,
        ensures
            final(self).bytes() == old(self).bytes(),
            r is Ok <==> EditListView::decode(old(self).bytes(), old(self).pos() as int, size as int) is Some,
            r matches Ok(b) ==> Some(b@) == EditListView::decode(
                old(self).bytes(),
                old(self).pos() as int,
                size as int,
            ) && final(self).pos() == old(self).pos() + size,
    {
        let ghost data = self.bytes();
        let start: u64 = self.reader.position();
        let version: u8 = self.reader.read_u8()?;
        let flags: u32 = self.reader.read_u24()?;
        let entry_count: u32 = self.reader.read_u32()?;
        let count: u64 = entry_count as u64;
        let stride: u64 = if version == 1 { 20 } else { 12 };
        if size < 8 + stride * count {
            return Err(MediaError::InvalidBoxSize);
        }
        let mut entries: Vec<EditListEntry> = Vec::new();
        let mut i: u64 = 0;
        while i < count
            invariant
                self.bytes() == data,
                data == old(self).bytes(),
                start == old(self).pos(),
                start + size <= u64::MAX,
                i <= count,
                count <= u32::MAX,
                stride == EditListView::entry_len(version),
                version == u8_at(data, start as int),
                count == be_u32(data, start + 4),
                size >= 8 + stride * count,
                self.pos() == start + 8 + stride * i,
                readable(data, start as int, 8 + stride * i),
                entries@.len() == i,
                forall|j: int| 0 <= j < i ==> entries@[j] == EditListView::entry_at(data, start as int, version, j),
            decreases count - i,
        {
            proof {
                lemma_mul_is_distributive_add(stride as int, i as int, 1);
                lemma_mul_basics(stride as int);
                lemma_mul_inequality(i + 1, count as int, stride as int);
                lemma_mul_is_commutative(stride as int, i + 1);
                lemma_mul_is_commutative(stride as int, count as int);
            }
            let segment_duration: u64;
            let media_time: i64;
            if version == 1 {
                segment_duration = self.reader.read_u64()?;
                media_time = self.reader.read_i64()?;
            } else {
                segment_duration = self.reader.read_u32()? as u64;
                media_time = self.reader.read_i32()? as i64;
            }
            let media_rate: i16 = self.reader.read_i16()?;
            let media_rate_fraction: i16 = self.reader.read_i16()?;
            entries.push(EditListEntry::new(segment_duration, media_time, media_rate, media_rate_fraction));
            i = i + 1;
        }
        self.finish_payload(start, size)?;
        let b = EditListBox::new(version, flags, entries);
        proof {
            let want = EditListView::decode(data, start as int, size as int);
            assert(b@.entries =~= want.unwrap().entries);
        }
        Ok(b)
    }

    fn parse_stsd(&mut self, size: u64) -> (r: Result<SampleDescriptionBox, MediaError>)
        requires
            old(self).pos() + size <= u64::MAX,
        ensures
            final(self).bytes() == old(self).bytes(),
            r is Ok <==> SampleDescriptionView::decode(old(self).bytes(), old(self).pos() as int, size as int) is Some,
            r matches Ok(b) ==> Some(b@) == SampleDescriptionView::decode(
                old(self).bytes(),
                old(self).pos() as int,
                size as int,
            ) && final(self).pos() == old(self).pos() + size,
    {
        let ghost data = self.bytes();
        let start: u64 = self.reader.position();
        if size < 8 {
            return Err(MediaError::InvalidBoxSize);
        }
        let end: u64 = start + size;
        let version: u8 = self.reader.read_u8()?;
        let flags: u32 = self.reader.read_u24()?;
        let entry_count: u32 = self.reader.read_u32()?;
        let mut entries: Vec<SampleEntry> = Vec::new();
        let mut i: u32 = 0;
        assert(sample_entry_views(entries@) =~= Seq::empty());
        while i < entry_count
            invariant
                self.bytes() == data,
                data == old(self).bytes(),
                start == old(self).pos(),
                end == start + size,
                size >= 8,
                readable(data, start as int, 8),
                entry_count == be_u32(data, start + 4),
                i <= entry_count,
                start + 8 <= self.pos() <= end,
                SampleEntryView::decode_many(data, start + 8, end as int, i as nat) == Some(
                    (sample_entry_views(entries@), self.pos() as int),
                ),
            decreases entry_count - i,
        {
            let ghost at = self.pos() as int;
            let ghost before = sample_entry_views(entries@);
            proof {
                if SampleEntryView::decode(data, at, end as int) is None {
                    assert(SampleEntryView::decode_many(data, start + 8, end as int, (i + 1) as nat) is None);
                    SampleEntryView::decode_many_fails_on(
                        data,
                        start + 8,
                        end as int,
                        (i + 1) as nat,
                        entry_count as nat,
                    );
                }
            }
            let entry_start: u64 = self.reader.position();
            let entry_size: u64 = self.reader.read_u32()? as u64;
            let entry_type = self.reader.read_fixed_string(4)?;
            if entry_size < 16 || entry_size > end - entry_start {
                return Err(MediaError::InvalidBoxSize);
            }
            self.reader.skip(6)?;
            let data_reference_index: u16 = self.reader.read_u16()?;
            let entry_data = self.reader.read_bytes(entry_size - 16)?;
            let entry = SampleEntry::new(entry_type, data_reference_index, entry_data);
            entries.push(entry);
            proof {
                assert(sample_entry_views(entries@) =~= before.push(
                    SampleEntryView::decode(data, at, end as int).unwrap().0,
                ));
            }
            i = i + 1;
        }
        self.finish_payload(start, size)?;
        Ok(SampleDescriptionBox::new(version, flags, entry_count, entries))
    }

    fn parse_dref(&mut self, size: u64) -> (r: Result<DataReferenceBox, MediaError>)
        requires
            old(self).pos() + size <= u64::MAX,
        ensures
            final(self).bytes() == old(self).bytes(),
            r is Ok <==> DataReferenceView::decode(old(self).bytes(), old(self).pos() as int, size as int) is Some,
            r matches Ok(b) ==> Some(b@) == DataReferenceView::decode(
                old(self).bytes(),
                old(self).pos() as int,
                size as int,
            ) && final(self).pos() == old(self).pos() + size,
    {
        let ghost data = self.bytes();
        let start: u64 = self.reader.position();
        if size < 8 {
            return Err(MediaError::InvalidBoxSize);
        }
        let end: u64 = start + size;
        let version: u8 = self.reader.read_u8()?;
        let flags: u32 = self.reader.read_u24()?;
        let entry_count: u32 = self.reader.read_u32()?;
        let mut entries: Vec<DataEntryBox> = Vec::new();
        let mut i: u32 = 0;
        assert(data_entry_views(entries@) =~= Seq::empty());
        while i < entry_count
            invariant
                self.bytes() == data,
                data == old(self).bytes(),
                start == old(self).pos(),
                end == start + size,
                size >= 8,
                readable(data, start as int, 8),
                entry_count == be_u32(data, start + 4),
                i <= entry_count,
                start + 8 <= self.pos() <= end,
                DataEntryView::decode_many(data, start + 8, end as int, i as nat) == Some(
                    (data_entry_views(entries@), self.pos() as int),
                ),
            decreases entry_count - i,
        {
            let ghost at = self.pos() as int;
            let ghost before = data_entry_views(entries@);
            proof {
                if DataEntryView::decode(data, at, end as int) is None {
                    assert(DataEntryView::decode_many(data, start + 8, end as int, (i + 1) as nat) is None);
                    DataEntryView::decode_many_fails_on(
                        data,
                        start + 8,
                        end as int,
                        (i + 1) as nat,
                        entry_count as nat,
                    );
                }
            }
            let entry_start: u64 = self.reader.position();
            let entry_size: u64 = self.reader.read_u32()? as u64;
            let mut code: [u8; 4] = [0u8; 4];
            self.reader.read_exact(&mut code)?;
            let entry_type = BoxType::new(code);
            proof {
                assert(entry_type@ =~= bytes_at(data, at + 4, 4));
            }
            let entry_version: u8 = self.reader.read_u8()?;
            let entry_flags: u32 = self.reader.read_u24()?;
            if entry_size < 12 || entry_size > end - entry_start {
                return Err(MediaError::InvalidBoxSize);
            }
            let entry_end: u64 = entry_start + entry_size;
            if entry_type.is('u', 'r', 'l', ' ') {
                let location = if entry_flags % 2 == 0 {
                    self.reader.read_string(entry_size - 12)?
                } else {
                    self.reader.skip(entry_size - 12)?;
                    String::new()
                };
                entries.push(DataEntryBox::Url { version: entry_version, flags: entry_flags, location });
                proof {
                    assert(data_entry_views(entries@) =~= before.push(
                        DataEntryView::Url { version: entry_version, flags: entry_flags, location: location@ },
                    ));
                }
            } else if entry_type.is('u', 'r', 'n', ' ') {
                let name = self.reader.read_string_until_null()?;
                let location = self.reader.read_string_until_null()?;
                if self.reader.position() > entry_end {
                    return Err(MediaError::InvalidBoxSize);
                }
                self.finish_payload(entry_start, entry_size)?;
                entries.push(
                    DataEntryBox::Urn { version: entry_version, flags: entry_flags, name, location },
                );
                proof {
                    assert(data_entry_views(entries@) =~= before.push(
                        DataEntryView::Urn {
                            version: entry_version,
                            flags: entry_flags,
                            name: name@,
                            location: location@,
                        },
                    ));
                }
            } else {
                self.reader.skip(entry_size - 12)?;
            }
            i = i + 1;
        }
        self.finish_payload(start, size)?;
        Ok(DataReferenceBox::new(version, flags, entries))
    }

    /// Reads the nine numbers of a matrix.
    fn read_matrix(&mut self) -> (r: Result<Matrix, MediaError>)
        ensures
            final(self).bytes() == old(self).bytes(),
            r is Ok <==> readable(old(self).bytes(), old(self).pos() as int, 36),
            r matches Ok(m) ==> m@ == Seq::new(
                9,
                |i: int| be_i32(old(self).bytes(), old(self).pos() + 4 * i),
            ) && final(self).pos() == old(self).pos() + 36,
    {
        let ghost data = self.bytes();
        let ghost start = self.pos() as int;
        let mut values: [i32; 9] = [0i32; 9];
        let mut i: usize = 0;
        while i < 9
            invariant
                self.bytes() == data,
                i <= 9,
                data == old(self).bytes(),
                start == old(self).pos(),
                self.pos() == start + 4 * i,
                readable(data, start, 4 * i),
                forall|j: int| 0 <= j < i ==> values@[j] == be_i32(data, start + 4 * j),
            decreases 9 - i,
        {
            let v: i32 = self.reader.read_i32()?;
            values[i] = v;
            i = i + 1;
        }
        let m = Matrix::new(values);
        proof {
            assert(m@ =~= Seq::new(9, |i: int| be_i32(data, start + 4 * i)));
        }
        Ok(m)
    }
}

} // verus!
