//! The `DATA` chunk: a section of media packets, which are passed over.

use crate::analyzer::{
    measured, plain, property_views, push_measured, push_plain, Property, PropertyView,
};
use crate::error::{IoErrorKind, MediaErrorView};
use crate::encoding::{holds, holds_both, reads_back_u32, u32_bytes};
use crate::reader::{be_u32, readable};
use crate::text::{prefixed_hex, prefixed_hex_string};
use vstd::prelude::*;

verus! {

/// The number of packets of a data section, and the offset of the next
/// section as the file declares it.  The offset is kept and not followed.
#[derive(Debug, Clone, Copy, PartialEq, Eq, Structural)]
pub struct DataChunk {
    pub num_packets: u32,
    pub next_data_header: u32,
}

impl DataChunk {
    /// The chunk read from a payload of `size` bytes at offset `at`: two
    /// 32-bit numbers; the packets after them are not read.
    pub open spec fn decode(data: Seq<u8>, at: int, size: int) -> Result<DataChunk, MediaErrorView> {
        if size < 8 {
            Err(MediaErrorView::InvalidBoxSize)
        } else if !readable(data, at, 8) {
            Err(MediaErrorView::Io(IoErrorKind::UnexpectedEof))
        } else {
            Ok(DataChunk { num_packets: be_u32(data, at), next_data_header: be_u32(data, at + 4) })
        }
    }

    /// The bytes that hold the two numbers of the chunk; the packets follow
    /// them.
    pub open spec fn encode(self) -> Seq<u8> {
        u32_bytes(self.num_packets) + u32_bytes(self.next_data_header)
    }

    /// Decoding a payload that begins with the bytes that a chunk was written
    /// down as gives the chunk back, whatever packets follow.
    pub proof fn decode_inverts_encode(self, data: Seq<u8>, at: int, size: int)
        requires
            size >= 8,
            holds(data, at, self.encode()),
        ensures
            Self::decode(data, at, size) == Ok::<DataChunk, MediaErrorView>(self),
    {
        holds_both(data, at, u32_bytes(self.num_packets), u32_bytes(self.next_data_header));
        reads_back_u32(data, at, self.num_packets);
        reads_back_u32(data, at + 4, self.next_data_header);
    }

    /// The decoded fields as properties, in the order in which they are shown.
    pub open spec fn properties(self) -> Seq<PropertyView> {
        seq![
            measured("num_packets"@, self.num_packets as nat, " packets"@),
            plain("next_data_header"@, prefixed_hex("0x"@, self.next_data_header as nat, 8)),
        ]
    }

    /// A chunk with the fields given.
    pub fn new(num_packets: u32, next_data_header: u32) -> (c: DataChunk)
        ensures
            c == (DataChunk { num_packets, next_data_header }),
    {
        DataChunk { num_packets, next_data_header }
    }

    /// One line that says what kind of record this is.
    pub fn description(&self) -> (s: &'static str)
        ensures
            s@ == "Media Data"@,
    {
        "Media Data"
    }

    /// Appends the decoded fields to `properties`, in the order in which they are shown.
    pub fn fill_properties(&self, properties: &mut Vec<Property>)
        ensures
            property_views(final(properties)@) == property_views(old(properties)@) + self.properties(),
    {
        push_measured(properties, "num_packets", self.num_packets as u64, " packets");
        push_plain(properties, "next_data_header", prefixed_hex_string("0x", self.next_data_header as u64, 8));
        assert(property_views(properties@) =~= property_views(old(properties)@) + self.properties());
    }
}

} // verus!
