//! The box tree of ISO base media files.

pub mod box_parser;
pub mod boxes;
pub mod types;

use crate::analyzer::isobmff::box_parser::{boxes_in, end_of};
use crate::analyzer::isobmff::types::fourcc_text;
use crate::analyzer::{element_views, ElementInfo, ElementView, MediaInfo};
use crate::error::MediaError;
use crate::reader::Reader;
use crate::text::decimal;
use boxes::{box_views, BoxInfo, BoxView};
use vstd::prelude::*;
use vstd::string::StringExecFns;

pub use box_parser::BoxParser;

verus! {

/// The element that presents a box: its type as text, its offset and size in
/// decimal, the description and the properties of what it holds, and the
/// elements of the boxes inside it.
pub open spec fn element_of(b: BoxView) -> ElementView
    decreases b,
{
    ElementView {
        name: fourcc_text(b.box_type),
        offset: decimal(b.offset as nat),
        size: decimal(b.size as nat),
        readable_value: b.data.description(),
        children: elements_of(b.children),
        properties: b.data.properties(),
    }
}

/// The elements that present a list of boxes, in the same order.
pub open spec fn elements_of(boxes: Seq<BoxView>) -> Seq<ElementView>
    decreases boxes,
{
    Seq::new(
        boxes.len(),
        |i: int|
            if 0 <= i < boxes.len() {
                element_of(boxes[i])
            } else {
                arbitrary()
            },
    )
}

/// Decoding the same bytes twice gives the same tree: two lists of boxes that
/// both are what the bytes decode to are equal, and so are the elements that
/// present them, with their offsets, sizes, properties and children.
pub proof fn decoding_is_repeatable(data: Seq<u8>, at: int, first: Seq<BoxView>, second: Seq<BoxView>)
    requires
        first == boxes_in(data, at, u64::MAX as int),
        second == boxes_in(data, at, u64::MAX as int),
    ensures
        first == second,
        elements_of(first) == elements_of(second),
        first.len() == second.len(),
        forall|i: int|
            0 <= i < first.len() ==> first[i].offset == second[i].offset && first[i].size == second[i].size
                && first[i].children.len() == second[i].children.len() && first[i].data.properties()
                == second[i].data.properties(),
{
}

/// Analyzer of a stream of boxes.
pub struct IsobmffAnalyzer {
    parser: BoxParser,
}

impl IsobmffAnalyzer {
    /// The bytes of the stream.
    pub closed spec fn bytes(&self) -> Seq<u8> {
        self.parser.bytes()
    }

    /// The position of the next read.
    pub closed spec fn pos(&self) -> u64 {
        self.parser.pos()
    }

    /// Whether diagnostics are asked for.
    pub closed spec fn debug(&self) -> bool {
        self.parser.debug()
    }

    /// An analyzer at the start of `data`, with diagnostics asked for.
    pub fn new(data: Vec<u8>) -> (r: Result<IsobmffAnalyzer, MediaError>)
        ensures
            r matches Ok(a) && a.bytes() == data@ && a.pos() == 0 && a.debug(),
    {
        let reader = Reader::new(data);
        let parser = BoxParser::new(reader);
        Ok(IsobmffAnalyzer { parser })
    }

    /// Asks for diagnostics, or not.  What is found does not depend on it.
    pub fn set_debug(&mut self, debug: bool)
        ensures
            final(self).bytes() == old(self).bytes(),
            final(self).pos() == old(self).pos(),
            final(self).debug() == debug,
    {
        self.parser.set_debug(debug);
    }

    /// Decodes the boxes from the current position on and presents them as
    /// elements.  Never fails: what cannot be decoded ends the list, and the
    /// position is then the end of the last box decoded.
    pub fn analyze(&mut self) -> (r: Result<MediaInfo, MediaError>)
        ensures
            final(self).bytes() == old(self).bytes(),
            final(self).pos() == end_of(
                boxes_in(old(self).bytes(), old(self).pos() as int, u64::MAX as int),
                old(self).pos() as int,
            ),
            r matches Ok(info) && info.format@ == "ISOBMFF"@ && info.audio_streams@.len() == 0
                && info.metadata@.len() == 0 && element_views(info.structure@) == elements_of(
                boxes_in(old(self).bytes(), old(self).pos() as int, u64::MAX as int),
            ),
    {
        let boxes = self.parser.parse_boxes()?;
        Ok(
            MediaInfo {
                format: String::from_str("ISOBMFF"),
                audio_streams: Vec::new(),
                metadata: Vec::new(),
                structure: Self::convert_to_elements(boxes.as_slice()),
            },
        )
    }

    /// The elements that present `boxes`.
    pub fn convert_to_elements(boxes: &[boxes::Box]) -> (r: Vec<ElementInfo>)
        ensures
            element_views(r@) == elements_of(box_views(boxes@)),
        decreases boxes@,
    {
        let mut out: Vec<ElementInfo> = Vec::new();
        let mut i: usize = 0;
        while i < boxes.len()
            invariant
                i <= boxes.len(),
                out@.len() == i,
                forall|j: int| 0 <= j < i ==> out@[j]@ == element_of(boxes@[j]@),
            decreases boxes.len() - i,
        {
            let box_info = &boxes[i];
            let mut element = ElementInfo::new(box_info.box_type().as_str(), box_info.offset(), box_info.size());
            element.readable_value = String::from_str(box_info.description());
            box_info.fill_properties(&mut element.properties);
            element.children = Self::convert_to_elements(box_info.children());
            proof {
                assert(element@.properties =~= box_info@.data.properties());
                assert(element@.children =~= elements_of(box_info@.children));
            }
            out.push(element);
            i = i + 1;
        }
        proof {
            assert(element_views(out@) =~= elements_of(box_views(boxes@)));
        }
        out
    }
}

} // verus!
