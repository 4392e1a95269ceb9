//! The chunk sequence of RealMedia files.

pub mod chunk_parser;
pub mod chunks;

use crate::analyzer::isobmff::types::fourcc_text;
use crate::analyzer::rmff::chunk_parser::{stream_at, stream_end};
use crate::analyzer::{element_views, ElementInfo, ElementView, MediaInfo};
use crate::error::{MediaError, MediaErrorView};
use crate::reader::Reader;
use crate::text::decimal;
use chunks::{chunk_views, ChunkInfo, ChunkView};
use vstd::prelude::*;
use vstd::string::StringExecFns;

pub use chunk_parser::ChunkParser;

verus! {

/// The element that presents a chunk: its type as text, its offset and size
/// in decimal, the description and the properties of what it holds, and the
/// elements of its children.
pub open spec fn element_of(c: ChunkView) -> ElementView
    decreases c,
{
    ElementView {
        name: fourcc_text(c.chunk_type),
        offset: decimal(c.offset as nat),
        size: decimal(c.size as nat),
        readable_value: c.data.description(),
        children: elements_of(c.children),
        properties: c.data.properties(),
    }
}

/// The elements that present a list of chunks, in the same order.
pub open spec fn elements_of(chunks: Seq<ChunkView>) -> Seq<ElementView>
    decreases chunks,
{
    Seq::new(
        chunks.len(),
        |i: int|
            if 0 <= i < chunks.len() {
                element_of(chunks[i])
            } else {
                arbitrary()
            },
    )
}

/// Decoding the same bytes twice gives the same outcome: two outcomes that
/// both are what the bytes decode to are equal, and where they are lists of
/// chunks, so are the elements that present them.
pub proof fn decoding_is_repeatable(
    data: Seq<u8>,
    at: int,
    first: Result<Seq<ChunkView>, MediaErrorView>,
    second: Result<Seq<ChunkView>, MediaErrorView>,
)
    requires
        first == stream_at(data, at),
        second == stream_at(data, at),
    ensures
        first == second,
        first matches Ok(a) ==> second matches Ok(b) && elements_of(a) == elements_of(b) && a.len()
            == b.len(),
{
}

/// Analyzer of a stream of chunks.
pub struct RmffAnalyzer {
    parser: ChunkParser,
}

impl RmffAnalyzer {
    /// The bytes of the stream.
    pub closed spec fn bytes(&self) -> Seq<u8> {
        self.parser.bytes()
    }

    /// The position of the next read.
    pub closed spec fn pos(&self) -> u64 {
        self.parser.pos()
    }

    /// Whether diagnostics are asked for.
    pub closed spec fn debug(&self) -> bool {
        self.parser.debug()
    }

    /// An analyzer at the start of `data`, with diagnostics asked for.
    pub fn new(data: Vec<u8>) -> (r: Result<RmffAnalyzer, MediaError>)
        ensures
            r matches Ok(a) && a.bytes() == data@ && a.pos() == 0 && a.debug(),
    {
        let reader = Reader::new(data);
        let parser = ChunkParser::new(reader);
        Ok(RmffAnalyzer { parser })
    }

    /// Asks for diagnostics, or not.  What is found does not depend on it.
    pub fn set_debug(&mut self, debug: bool)
        ensures
            final(self).bytes() == old(self).bytes(),
            final(self).pos() == old(self).pos(),
            final(self).debug() == debug,
    {
        self.parser.set_debug(debug);
    }

    /// Decodes the stream from the current position on and presents its
    /// chunks as elements, up to the first chunk that cannot be decoded.
    /// Fails only where the marker is missing or wrong, or the version is not
    /// zero, and then stays where it was.
    pub fn analyze(&mut self) -> (r: Result<MediaInfo, MediaError>)
        ensures
            final(self).bytes() == old(self).bytes(),
            r is Err ==> final(self).pos() == old(self).pos(),
            r is Ok ==> final(self).pos() == stream_end(old(self).bytes(), old(self).pos() as int),
            match r {
                Ok(info) => stream_at(old(self).bytes(), old(self).pos() as int) matches Ok(chunks)
                    && element_views(info.structure@) == elements_of(chunks) && info.format@
                    == "RealMedia"@ && info.audio_streams@.len() == 0 && info.metadata@.len() == 0,
                Err(e) => stream_at(old(self).bytes(), old(self).pos() as int) == Err::<
                    Seq<ChunkView>,
                    MediaErrorView,
                >(e@) && e@ is InvalidFormat,
            },
    {
        let chunks = self.parser.parse_chunks()?;
        Ok(
            MediaInfo {
                format: String::from_str("RealMedia"),
                audio_streams: Vec::new(),
                metadata: Vec::new(),
                structure: Self::convert_to_elements(chunks.as_slice()),
            },
        )
    }

    /// The elements that present `chunks`.
    pub fn convert_to_elements(chunks: &[chunks::Chunk]) -> (r: Vec<ElementInfo>)
        ensures
            element_views(r@) == elements_of(chunk_views(chunks@)),
        decreases chunks@,
    {
        let mut out: Vec<ElementInfo> = Vec::new();
        let mut i: usize = 0;
        while i < chunks.len()
            invariant
                i <= chunks.len(),
                out@.len() == i,
                forall|j: int| 0 <= j < i ==> out@[j]@ == element_of(chunks@[j]@),
            decreases chunks.len() - i,
        {
            let chunk = &chunks[i];
            let mut element = ElementInfo::new(chunk.chunk_type().as_str(), chunk.offset(), chunk.size());
            element.readable_value = String::from_str(chunk.description());
            chunk.fill_properties(&mut element.properties);
            element.children = Self::convert_to_elements(chunk.children());
            proof {
                assert(element@.properties =~= chunk@.data.properties());
                assert(element@.children =~= elements_of(chunk@.children));
            }
            out.push(element);
            i = i + 1;
        }
        proof {
            assert(element_views(out@) =~= elements_of(chunk_views(chunks@)));
        }
        out
    }
}

} // verus!
