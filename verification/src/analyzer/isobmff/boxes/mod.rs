//! The box records: the tree node, and one module for each kind of box.

mod dinf;
mod dref;
mod edts;
mod elst;
mod ftyp;
mod generic;
mod hdlr;
mod mdat;
mod mdhd;
mod mdia;
mod minf;
mod moov;
mod mvhd;
mod smhd;
mod stbl;
mod stco;
mod stsc;
mod stsd;
mod stsz;
mod stts;
mod tkhd;
mod trak;
mod vmhd;

use crate::analyzer::isobmff::types::BoxType;
use crate::analyzer::{property_views, Property, PropertyView};
use vstd::prelude::*;

pub use dinf::DataInformationBox;
pub use dref::{
    data_entry_views, DataEntryBox, DataEntryStep, DataEntryView, DataReferenceBox, DataReferenceView,
};
pub use edts::EditBox;
pub use elst::{EditListBox, EditListEntry, EditListView};
pub use ftyp::{FileTypeBox, FileTypeView};
pub use generic::GenericBox;
pub use hdlr::{HandlerBox, HandlerView};
pub use mdat::MediaDataBox;
pub use mdhd::{language_string, language_text, MediaHeaderBox, MediaHeaderView};
pub use mdia::MediaBox;
pub use minf::MediaInfoBox;
pub use moov::MovieBox;
pub use mvhd::{MovieHeaderBox, MovieHeaderView};
pub use smhd::SoundMediaHeaderBox;
pub use stbl::SampleTableBox;
pub use stco::{ChunkOffsetBox, ChunkOffsetView};
pub use stsc::{SampleToChunkBox, SampleToChunkEntry, SampleToChunkView};
pub use stsd::{
    sample_entry_views, SampleDescriptionBox, SampleDescriptionView, SampleEntry, SampleEntryView,
};
pub use stsz::{SampleSizeBox, SampleSizeView};
pub use stts::{TimeToSampleBox, TimeToSampleEntry, TimeToSampleView};
pub use tkhd::{TrackHeaderBox, TrackHeaderView};
pub use trak::TrackBox;
pub use vmhd::{VideoMediaHeaderBox, VideoMediaHeaderView};

verus! {

/// Generic box structure: where a box lies, what it holds, and the boxes
/// inside it.
#[derive(Debug)]
pub struct Box {
    pub box_type: BoxType,
    pub size: u64,
    pub offset: u64,
    pub data: BoxData,
    pub children: Vec<Box>,
}

/// What a box holds, by its kind.
#[derive(Debug)]
pub enum BoxData {
    FileType(FileTypeBox),
    Movie(MovieBox),
    MovieHeader(MovieHeaderBox),
    TrackHeader(TrackHeaderBox),
    MediaHeader(MediaHeaderBox),
    Handler(HandlerBox),
    VideoMediaHeader(VideoMediaHeaderBox),
    SoundMediaHeader(SoundMediaHeaderBox),
    EditList(EditListBox),
    TimeToSample(TimeToSampleBox),
    SampleToChunk(SampleToChunkBox),
    SampleSize(SampleSizeBox),
    ChunkOffset(ChunkOffsetBox),
    SampleDescription(SampleDescriptionBox),
    DataReference(DataReferenceBox),
    Track(TrackBox),
    Edit(EditBox),
    Media(MediaBox),
    MediaInfo(MediaInfoBox),
    MediaData(MediaDataBox),
    SampleTable(SampleTableBox),
    DataInformation(DataInformationBox),
    Unknown,
}

/// Mathematical value of a [`Box`].
pub struct BoxView {
    pub box_type: Seq<u8>,
    pub size: u64,
    pub offset: u64,
    pub data: BoxDataView,
    pub children: Seq<BoxView>,
}

/// Mathematical value of a [`BoxData`].
pub enum BoxDataView {
    FileType(FileTypeView),
    Movie,
    MovieHeader(MovieHeaderView),
    TrackHeader(TrackHeaderView),
    MediaHeader(MediaHeaderView),
    Handler(HandlerView),
    VideoMediaHeader(VideoMediaHeaderView),
    SoundMediaHeader(SoundMediaHeaderBox),
    EditList(EditListView),
    TimeToSample(TimeToSampleView),
    SampleToChunk(SampleToChunkView),
    SampleSize(SampleSizeView),
    ChunkOffset(ChunkOffsetView),
    SampleDescription(SampleDescriptionView),
    DataReference(DataReferenceView),
    Track(Seq<BoxView>),
    Edit,
    Media(Seq<BoxView>),
    MediaInfo(Seq<BoxView>),
    MediaData(MediaDataBox),
    SampleTable(Seq<BoxView>),
    DataInformation,
    Unknown,
}

/// The views of a list of boxes.
pub open spec fn box_views(items: Seq<Box>) -> Seq<BoxView>
    decreases items,
{
    Seq::new(
        items.len(),
        |i: int|
            if 0 <= i < items.len() {
                items[i].view()
            } else {
                arbitrary()
            },
    )
}

impl BoxData {
    /// The mathematical value of the record and of everything under it.
    pub open spec fn view(&self) -> BoxDataView
        decreases self,
    {
        match self {
            BoxData::FileType(b) => BoxDataView::FileType(b@),
            BoxData::Movie(_) => BoxDataView::Movie,
            BoxData::MovieHeader(b) => BoxDataView::MovieHeader(b@),
            BoxData::TrackHeader(b) => BoxDataView::TrackHeader(b@),
            BoxData::MediaHeader(b) => BoxDataView::MediaHeader(b@),
            BoxData::Handler(b) => BoxDataView::Handler(b@),
            BoxData::VideoMediaHeader(b) => BoxDataView::VideoMediaHeader(b@),
            BoxData::SoundMediaHeader(b) => BoxDataView::SoundMediaHeader(*b),
            BoxData::EditList(b) => BoxDataView::EditList(b@),
            BoxData::TimeToSample(b) => BoxDataView::TimeToSample(b@),
            BoxData::SampleToChunk(b) => BoxDataView::SampleToChunk(b@),
            BoxData::SampleSize(b) => BoxDataView::SampleSize(b@),
            BoxData::ChunkOffset(b) => BoxDataView::ChunkOffset(b@),
            BoxData::SampleDescription(b) => BoxDataView::SampleDescription(b@),
            BoxData::DataReference(b) => BoxDataView::DataReference(b@),
            BoxData::Track(b) => BoxDataView::Track(b.view()),
            BoxData::Edit(_) => BoxDataView::Edit,
            BoxData::Media(b) => BoxDataView::Media(b.view()),
            BoxData::MediaInfo(b) => BoxDataView::MediaInfo(b.view()),
            BoxData::MediaData(b) => BoxDataView::MediaData(*b),
            BoxData::SampleTable(b) => BoxDataView::SampleTable(b.view()),
            BoxData::DataInformation(_) => BoxDataView::DataInformation,
            BoxData::Unknown => BoxDataView::Unknown,
        }
    }
}

impl Box {
    /// The mathematical value of the record and of everything under it.
    pub open spec fn view(&self) -> BoxView
        decreases self,
    {
        BoxView {
            box_type: self.box_type@,
            size: self.size,
            offset: self.offset,
            data: self.data.view(),
            children: box_views(self.children@),
        }
    }

    /// A box without children.
    pub fn new(box_type: BoxType, size: u64, offset: u64, data: BoxData) -> (b: Box)
        ensures
            b@ == (BoxView {
                box_type: box_type@,
                size,
                offset,
                data: data@,
                children: Seq::empty(),
            }),
    {
        let b = Box { box_type, size, offset, data, children: Vec::new() };
        assert(b@.children =~= Seq::empty());
        b
    }

    /// Appends a child.
    pub fn add_child(&mut self, child: Box)
        ensures
            final(self)@ == (BoxView { children: old(self)@.children.push(child@), ..old(self)@ }),
    {
        self.children.push(child);
        assert(self@.children =~= old(self)@.children.push(child@));
    }
}

impl BoxDataView {
    /// One line that says what kind of box this is.
    pub open spec fn description(self) -> Seq<char> {
        match self {
            BoxDataView::FileType(_) => "File Type Box"@,
            BoxDataView::Movie => "Movie Box"@,
            BoxDataView::MovieHeader(_) => "Movie Header Box"@,
            BoxDataView::TrackHeader(_) => "Track Header Box"@,
            BoxDataView::Track(_) => "Track Box"@,
            BoxDataView::Edit => "Edit Box"@,
            BoxDataView::EditList(_) => "Edit List Box"@,
            BoxDataView::Media(_) => "Media Box"@,
            BoxDataView::MediaHeader(_) => "Media Header Box"@,
            BoxDataView::Handler(_) => "Handler Reference Box"@,
            BoxDataView::MediaInfo(_) => "Media Information Box"@,
            BoxDataView::VideoMediaHeader(_) => "Video Media Header Box"@,
            BoxDataView::SoundMediaHeader(_) => "Sound Media Header Box"@,
            BoxDataView::MediaData(_) => "Media Data Box"@,
            BoxDataView::SampleTable(_) => "Sample Table Box"@,
            BoxDataView::SampleDescription(_) => "Sample Description Box"@,
            BoxDataView::TimeToSample(_) => "Time To Sample Box"@,
            BoxDataView::SampleToChunk(_) => "Sample To Chunk Box"@,
            BoxDataView::SampleSize(_) => "Sample Size Box"@,
            BoxDataView::ChunkOffset(_) => "Chunk Offset Box"@,
            BoxDataView::DataInformation => "Data Information Box"@,
            BoxDataView::DataReference(_) => "Data Reference Box"@,
            BoxDataView::Unknown => "Unknown box type"@,
        }
    }

    /// The decoded fields as properties.  Containers and boxes of unknown
    /// type have none.
    pub open spec fn properties(self) -> Seq<PropertyView> {
        match self {
            BoxDataView::FileType(b) => b.properties(),
            BoxDataView::Movie => Seq::empty(),
            BoxDataView::MovieHeader(b) => b.properties(),
            BoxDataView::TrackHeader(b) => b.properties(),
            BoxDataView::Track(_) => Seq::empty(),
            BoxDataView::Edit => Seq::empty(),
            BoxDataView::EditList(b) => b.properties(),
            BoxDataView::Media(_) => Seq::empty(),
            BoxDataView::MediaHeader(b) => b.properties(),
            BoxDataView::Handler(b) => b.properties(),
            BoxDataView::MediaInfo(_) => Seq::empty(),
            BoxDataView::VideoMediaHeader(b) => b.properties(),
            BoxDataView::SoundMediaHeader(b) => b.properties(),
            BoxDataView::MediaData(b) => b.properties(),
            BoxDataView::SampleTable(_) => Seq::empty(),
            BoxDataView::SampleDescription(b) => b.properties(),
            BoxDataView::TimeToSample(b) => b.properties(),
            BoxDataView::SampleToChunk(b) => b.properties(),
            BoxDataView::SampleSize(b) => b.properties(),
            BoxDataView::ChunkOffset(b) => b.properties(),
            BoxDataView::DataInformation => Seq::empty(),
            BoxDataView::DataReference(b) => b.properties(),
            BoxDataView::Unknown => Seq::empty(),
        }
    }
}

impl BoxData {
    /// One line that says what kind of box this is.
    pub fn description(&self) -> (s: &'static str)
        ensures
            s@ == self@.description(),
    {
        match self {
            BoxData::FileType(b) => b.description(),
            BoxData::Movie(b) => b.description(),
            BoxData::MovieHeader(b) => b.description(),
            BoxData::TrackHeader(b) => b.description(),
            BoxData::Track(b) => b.description(),
            BoxData::Edit(b) => b.description(),
            BoxData::EditList(b) => b.description(),
            BoxData::Media(b) => b.description(),
            BoxData::MediaHeader(b) => b.description(),
            BoxData::Handler(b) => b.description(),
            BoxData::MediaInfo(b) => b.description(),
            BoxData::VideoMediaHeader(b) => b.description(),
            BoxData::SoundMediaHeader(b) => b.description(),
            BoxData::MediaData(b) => b.description(),
            BoxData::SampleTable(b) => b.description(),
            BoxData::SampleDescription(b) => b.description(),
            BoxData::TimeToSample(b) => b.description(),
            BoxData::SampleToChunk(b) => b.description(),
            BoxData::SampleSize(b) => b.description(),
            BoxData::ChunkOffset(b) => b.description(),
            BoxData::DataInformation(b) => b.description(),
            BoxData::DataReference(b) => b.description(),
            BoxData::Unknown => "Unknown box type",
        }
    }

    /// Appends the decoded fields to `properties`.
    pub fn fill_properties(&self, properties: &mut Vec<Property>)
        ensures
            property_views(final(properties)@) == property_views(old(properties)@) + self@.properties(),
    {
        match self {
            BoxData::FileType(b) => b.fill_properties(properties),
            BoxData::Movie(b) => b.fill_properties(properties),
            BoxData::MovieHeader(b) => b.fill_properties(properties),
            BoxData::TrackHeader(b) => b.fill_properties(properties),
            BoxData::Track(b) => b.fill_properties(properties),
            BoxData::Edit(b) => b.fill_properties(properties),
            BoxData::EditList(b) => b.fill_properties(properties),
            BoxData::Media(b) => b.fill_properties(properties),
            BoxData::MediaHeader(b) => b.fill_properties(properties),
            BoxData::Handler(b) => b.fill_properties(properties),
            BoxData::MediaInfo(b) => b.fill_properties(properties),
            BoxData::VideoMediaHeader(b) => b.fill_properties(properties),
            BoxData::SoundMediaHeader(b) => b.fill_properties(properties),
            BoxData::MediaData(b) => b.fill_properties(properties),
            BoxData::SampleTable(b) => b.fill_properties(properties),
            BoxData::SampleDescription(b) => b.fill_properties(properties),
            BoxData::TimeToSample(b) => b.fill_properties(properties),
            BoxData::SampleToChunk(b) => b.fill_properties(properties),
            BoxData::SampleSize(b) => b.fill_properties(properties),
            BoxData::ChunkOffset(b) => b.fill_properties(properties),
            BoxData::DataInformation(b) => b.fill_properties(properties),
            BoxData::DataReference(b) => b.fill_properties(properties),
            BoxData::Unknown => {},
        }
        assert(property_views(properties@) =~= property_views(old(properties)@) + self@.properties());
    }
}

/// Common interface for all box types.
pub trait BoxInfo {
    fn box_type(&self) -> BoxType;

    fn size(&self) -> u64;

    fn offset(&self) -> u64;

    fn description(&self) -> &str;

    fn fill_properties(&self, properties: &mut Vec<Property>);

    fn children(&self) -> &[Box];
}

impl BoxInfo for Box {
    fn box_type(&self) -> (t: BoxType)
        ensures
            t@ == self@.box_type,
    {
        self.box_type
    }

    fn size(&self) -> (n: u64)
        ensures
            n == self@.size,
    {
        self.size
    }

    fn offset(&self) -> (n: u64)
        ensures
            n == self@.offset,
    {
        self.offset
    }

    fn description(&self) -> (s: &str)
        ensures
            s@ == self@.data.description(),
    {
        self.data.description()
    }

    fn fill_properties(&self, properties: &mut Vec<Property>)
        ensures
            property_views(final(properties)@) == property_views(old(properties)@) + self@.data.properties(),
    {
        self.data.fill_properties(properties);
    }

    fn children(&self) -> (c: &[Box])
        ensures
            c@ == self.children@,
    {
        self.children.as_slice()
    }
}

} // verus!
