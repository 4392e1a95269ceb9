//! The chunk records: the record itself, and one module for each kind of
//! chunk.

mod cont;
mod data;
mod indx;
mod mdpr;
mod prop;

use crate::analyzer::isobmff::types::{code_of, fourcc_str, fourcc_text};
use crate::analyzer::{property_views, Property, PropertyView};
use vstd::prelude::*;

pub use cont::{
    push_unless_empty, strict_text, strict_text_reads_back, unless_empty, writable_text, ContChunk,
    ContView,
};
pub use data::DataChunk;
pub use indx::{IndexEntry, IndxChunk, IndxView};
pub use mdpr::{byte_texts, MdprChunk, MdprView};
pub use prop::PropChunk;

verus! {

/// Chunk type identifier (4 characters).
#[derive(Debug, Clone, Copy, Eq, PartialEq)]
pub struct ChunkType(pub [u8; 4]);

impl View for ChunkType {
    type V = Seq<u8>;

    open spec fn view(&self) -> Seq<u8> {
        self.0@
    }
}

impl ChunkType {
    /// A chunk type with the four bytes given.
    pub fn new(value: [u8; 4]) -> (t: ChunkType)
        ensures
            t@ == value@,
    {
        ChunkType(value)
    }

    /// The code as text.
    pub fn as_str(&self) -> (s: &str)
        ensures
            s@ == fourcc_text(self@),
    {
        fourcc_str(&self.0)
    }

    /// Whether the code is written with the four characters given.
    pub fn is(&self, a: char, b: char, c: char, d: char) -> (r: bool)
        ensures
            r == (self@ == code_of(a, b, c, d)),
    {
        let r = self.0[0] == a as u8 && self.0[1] == b as u8 && self.0[2] == c as u8 && self.0[3]
            == d as u8;
        proof {
            if r {
                assert(self@ =~= code_of(a, b, c, d));
            } else {
                assert(code_of(a, b, c, d)[0] == a as u8);
                assert(code_of(a, b, c, d)[1] == b as u8);
                assert(code_of(a, b, c, d)[2] == c as u8);
                assert(code_of(a, b, c, d)[3] == d as u8);
            }
        }
        r
    }
}

/// Generic chunk structure: where a chunk lies and what it holds.  Chunks do
/// not nest: the parser leaves the list of children empty.
#[derive(Debug)]
pub struct Chunk {
    pub chunk_type: ChunkType,
    pub size: u64,
    pub offset: u64,
    pub data: ChunkData,
    pub children: Vec<Chunk>,
}

/// What a chunk holds, by its kind.
#[derive(Debug)]
pub enum ChunkData {
    Prop(PropChunk),
    Cont(ContChunk),
    Mdpr(MdprChunk),
    Data(DataChunk),
    Indx(IndxChunk),
    Unknown,
}

/// Mathematical value of a [`Chunk`].
pub struct ChunkView {
    pub chunk_type: Seq<u8>,
    pub size: u64,
    pub offset: u64,
    pub data: ChunkDataView,
    pub children: Seq<ChunkView>,
}

/// Mathematical value of a [`ChunkData`].
pub enum ChunkDataView {
    Prop(PropChunk),
    Cont(ContView),
    Mdpr(MdprView),
    Data(DataChunk),
    Indx(IndxView),
    Unknown,
}

/// The views of a list of chunks.
pub open spec fn chunk_views(items: Seq<Chunk>) -> Seq<ChunkView>
    decreases items,
{
    Seq::new(
        items.len(),
        |i: int|
            if 0 <= i < items.len() {
                items[i].view()
            } else {
                arbitrary()
            },
    )
}

impl View for ChunkData {
    type V = ChunkDataView;

    open spec fn view(&self) -> ChunkDataView {
        match self {
            ChunkData::Prop(c) => ChunkDataView::Prop(*c),
            ChunkData::Cont(c) => ChunkDataView::Cont(c@),
            ChunkData::Mdpr(c) => ChunkDataView::Mdpr(c@),
            ChunkData::Data(c) => ChunkDataView::Data(*c),
            ChunkData::Indx(c) => ChunkDataView::Indx(c@),
            ChunkData::Unknown => ChunkDataView::Unknown,
        }
    }
}

impl ChunkDataView {
    /// One line that says what kind of chunk this is.
    pub open spec fn description(self) -> Seq<char> {
        match self {
            ChunkDataView::Prop(_) => "File Properties"@,
            ChunkDataView::Cont(_) => "Content Description"@,
            ChunkDataView::Mdpr(_) => "Media Properties"@,
            ChunkDataView::Data(_) => "Media Data"@,
            ChunkDataView::Indx(_) => "Index"@,
            ChunkDataView::Unknown => "Unknown chunk type"@,
        }
    }

    /// The decoded fields as properties.  A chunk of unknown type has none.
    pub open spec fn properties(self) -> Seq<PropertyView> {
        match self {
            ChunkDataView::Prop(c) => c.properties(),
            ChunkDataView::Cont(c) => c.properties(),
            ChunkDataView::Mdpr(c) => c.properties(),
            ChunkDataView::Data(c) => c.properties(),
            ChunkDataView::Indx(c) => c.properties(),
            ChunkDataView::Unknown => Seq::empty(),
        }
    }
}

impl ChunkData {
    /// One line that says what kind of chunk this is.
    pub fn description(&self) -> (s: &'static str)
        ensures
            s@ == self@.description(),
    {
        match self {
            ChunkData::Prop(chunk) => chunk.description(),
            ChunkData::Cont(chunk) => chunk.description(),
            ChunkData::Mdpr(chunk) => chunk.description(),
            ChunkData::Data(chunk) => chunk.description(),
            ChunkData::Indx(chunk) => chunk.description(),
            ChunkData::Unknown => "Unknown chunk type",
        }
    }

    /// Appends the decoded fields to `properties`.
    pub fn fill_properties(&self, properties: &mut Vec<Property>)
        ensures
            property_views(final(properties)@) == property_views(old(properties)@) + self@.properties(),
    {
        match self {
            ChunkData::Prop(chunk) => chunk.fill_properties(properties),
            ChunkData::Cont(chunk) => chunk.fill_properties(properties),
            ChunkData::Mdpr(chunk) => chunk.fill_properties(properties),
            ChunkData::Data(chunk) => chunk.fill_properties(properties),
            ChunkData::Indx(chunk) => chunk.fill_properties(properties),
            ChunkData::Unknown => {},
        }
        assert(property_views(properties@) =~= property_views(old(properties)@) + self@.properties());
    }
}

impl Chunk {
    /// The mathematical value of the record and of everything under it.
    pub open spec fn view(&self) -> ChunkView
        decreases self,
    {
        ChunkView {
            chunk_type: self.chunk_type@,
            size: self.size,
            offset: self.offset,
            data: self.data@,
            children: chunk_views(self.children@),
        }
    }

    /// A chunk without children.
    pub fn new(chunk_type: ChunkType, size: u64, offset: u64, data: ChunkData) -> (c: Chunk)
        ensures
            c@ == (ChunkView {
                chunk_type: chunk_type@,
                size,
                offset,
                data: data@,
                children: Seq::empty(),
            }),
    {
        let c = Chunk { chunk_type, size, offset, data, children: Vec::new() };
        assert(c@.children =~= Seq::empty());
        c
    }

    /// Appends a child.
    pub fn add_child(&mut self, child: Chunk)
        ensures
            final(self)@ == (ChunkView { children: old(self)@.children.push(child@), ..old(self)@ }),
    {
        self.children.push(child);
        assert(self@.children =~= old(self)@.children.push(child@));
    }
}

/// Common interface for all chunk types.
pub trait ChunkInfo {
    fn chunk_type(&self) -> ChunkType;

    fn size(&self) -> u64;

    fn offset(&self) -> u64;

    fn description(&self) -> &str;

    fn fill_properties(&self, properties: &mut Vec<Property>);

    fn children(&self) -> &[Chunk];
}

impl ChunkInfo for Chunk {
    fn chunk_type(&self) -> (t: ChunkType)
        ensures
            t@ == self@.chunk_type,
    {
        self.chunk_type
    }

    fn size(&self) -> (n: u64)
        ensures
            n == self@.size,
    {
        self.size
    }

    fn offset(&self) -> (n: u64)
        ensures
            n == self@.offset,
    {
        self.offset
    }

    fn description(&self) -> (s: &str)
        ensures
            s@ == self@.data.description(),
    {
        self.data.description()
    }

    fn fill_properties(&self, properties: &mut Vec<Property>)
        ensures
            property_views(final(properties)@) == property_views(old(properties)@) + self@.data.properties(),
    {
        self.data.fill_properties(properties);
    }

    fn children(&self) -> (c: &[Chunk])
        ensures
            c@ == self.children@,
    {
        self.children.as_slice()
    }
}

} // verus!
