//! The `PROP` chunk: rates, sizes and times of the whole file.

use crate::analyzer::{
    measured, plain, property_views, push_measured, push_plain, push_shown, shown, Property,
    PropertyView,
};
use crate::error::{IoErrorKind, MediaErrorView};
use crate::encoding::{holds, holds_both, reads_back_u16, reads_back_u32, u16_bytes, u32_bytes};
use crate::reader::{be_u16, be_u32, readable};
use crate::text::{decimal, prefixed_hex, prefixed_hex_string, u64_to_string};
use vstd::prelude::*;

verus! {

/// The decoded fields of a `PROP` chunk.
#[derive(Debug, Clone, Copy, PartialEq, Eq, Structural)]
pub struct PropChunk {
    pub max_bit_rate: u32,
    pub avg_bit_rate: u32,
    pub max_packet_size: u32,
    pub avg_packet_size: u32,
    pub num_packets: u32,
    pub duration: u32,
    pub preroll: u32,
    pub index_offset: u32,
    pub data_offset: u32,
    pub num_streams: u16,
    pub flags: u16,
}

impl PropChunk {
    /// The chunk read from a payload of `size` bytes at offset `at`: nine
    /// 32-bit numbers and two 16-bit ones.
    pub open spec fn decode(data: Seq<u8>, at: int, size: int) -> Result<PropChunk, MediaErrorView> {
        if size < 40 {
            Err(MediaErrorView::InvalidBoxSize)
        } else if !readable(data, at, 40) {
            Err(MediaErrorView::Io(IoErrorKind::UnexpectedEof))
        } else {
            Ok(
                PropChunk {
                    max_bit_rate: be_u32(data, at),
                    avg_bit_rate: be_u32(data, at + 4),
                    max_packet_size: be_u32(data, at + 8),
                    avg_packet_size: be_u32(data, at + 12),
                    num_packets: be_u32(data, at + 16),
                    duration: be_u32(data, at + 20),
                    preroll: be_u32(data, at + 24),
                    index_offset: be_u32(data, at + 28),
                    data_offset: be_u32(data, at + 32),
                    num_streams: be_u16(data, at + 36),
                    flags: be_u16(data, at + 38),
                },
            )
        }
    }

    /// The rates, the packet sizes and the number of packets as bytes.
    pub open spec fn encode_rates(self) -> Seq<u8> {
        u32_bytes(self.max_bit_rate) + u32_bytes(self.avg_bit_rate) + u32_bytes(self.max_packet_size)
            + u32_bytes(self.avg_packet_size) + u32_bytes(self.num_packets)
    }

    /// The times and the offsets as bytes.
    pub open spec fn encode_places(self) -> Seq<u8> {
        u32_bytes(self.duration) + u32_bytes(self.preroll) + u32_bytes(self.index_offset) + u32_bytes(
            self.data_offset,
        )
    }

    /// The payload that holds the chunk: its fields in their order.
    pub open spec fn encode(self) -> Seq<u8> {
        self.encode_rates() + self.encode_places() + u16_bytes(self.num_streams) + u16_bytes(self.flags)
    }

    /// The rates, sizes and number of packets that stand in `data` are read
    /// back.
    proof fn rates_read_back(self, data: Seq<u8>, at: int)
        requires
            holds(data, at, self.encode_rates()),
        ensures
            self.encode_rates().len() == 20,
            readable(data, at, 20),
            be_u32(data, at) == self.max_bit_rate,
            be_u32(data, at + 4) == self.avg_bit_rate,
            be_u32(data, at + 8) == self.max_packet_size,
            be_u32(data, at + 12) == self.avg_packet_size,
            be_u32(data, at + 16) == self.num_packets,
    {
        let h0 = u32_bytes(self.max_bit_rate);
        let h1 = h0 + u32_bytes(self.avg_bit_rate);
        let h2 = h1 + u32_bytes(self.max_packet_size);
        let h3 = h2 + u32_bytes(self.avg_packet_size);
        holds_both(data, at, h3, u32_bytes(self.num_packets));
        holds_both(data, at, h2, u32_bytes(self.avg_packet_size));
        holds_both(data, at, h1, u32_bytes(self.max_packet_size));
        holds_both(data, at, h0, u32_bytes(self.avg_bit_rate));
        reads_back_u32(data, at, self.max_bit_rate);
        reads_back_u32(data, at + 4, self.avg_bit_rate);
        reads_back_u32(data, at + 8, self.max_packet_size);
        reads_back_u32(data, at + 12, self.avg_packet_size);
        reads_back_u32(data, at + 16, self.num_packets);
    }

    /// The times and offsets that stand in `data` are read back.
    proof fn places_read_back(self, data: Seq<u8>, at: int)
        requires
            holds(data, at, self.encode_places()),
        ensures
            self.encode_places().len() == 16,
            readable(data, at, 16),
            be_u32(data, at) == self.duration,
            be_u32(data, at + 4) == self.preroll,
            be_u32(data, at + 8) == self.index_offset,
            be_u32(data, at + 12) == self.data_offset,
    {
        let h0 = u32_bytes(self.duration);
        let h1 = h0 + u32_bytes(self.preroll);
        let h2 = h1 + u32_bytes(self.index_offset);
        holds_both(data, at, h2, u32_bytes(self.data_offset));
        holds_both(data, at, h1, u32_bytes(self.index_offset));
        holds_both(data, at, h0, u32_bytes(self.preroll));
        reads_back_u32(data, at, self.duration);
        reads_back_u32(data, at + 4, self.preroll);
        reads_back_u32(data, at + 8, self.index_offset);
        reads_back_u32(data, at + 12, self.data_offset);
    }

    /// Decoding the bytes that a chunk was written down as gives the chunk
    /// back.
    pub proof fn decode_inverts_encode(self, data: Seq<u8>, at: int)
        requires
            holds(data, at, self.encode()),
        ensures
            Self::decode(data, at, self.encode().len() as int) == Ok::<PropChunk, MediaErrorView>(self),
    {
        let h0 = self.encode_rates();
        let h1 = h0 + self.encode_places();
        let h2 = h1 + u16_bytes(self.num_streams);
        holds_both(data, at, h2, u16_bytes(self.flags));
        holds_both(data, at, h1, u16_bytes(self.num_streams));
        holds_both(data, at, h0, self.encode_places());
        self.rates_read_back(data, at);
        self.places_read_back(data, at + 20);
        reads_back_u16(data, at + 36, self.num_streams);
        reads_back_u16(data, at + 38, self.flags);
    }

    /// The decoded fields as properties, in the order in which they are shown.
    pub open spec fn properties(self) -> Seq<PropertyView> {
        seq![
            measured("max_bit_rate"@, self.max_bit_rate as nat, " bps"@),
            measured("avg_bit_rate"@, self.avg_bit_rate as nat, " bps"@),
            measured("max_packet_size"@, self.max_packet_size as nat, " bytes"@),
            measured("avg_packet_size"@, self.avg_packet_size as nat, " bytes"@),
            measured("num_packets"@, self.num_packets as nat, " packets"@),
            measured("duration"@, self.duration as nat, " ms"@),
            measured("preroll"@, self.preroll as nat, " ms"@),
            shown(
                "index_offset"@,
                decimal(self.index_offset as nat),
                prefixed_hex("0x"@, self.index_offset as nat, 8),
            ),
            shown(
                "data_offset"@,
                decimal(self.data_offset as nat),
                prefixed_hex("0x"@, self.data_offset as nat, 8),
            ),
            measured("num_streams"@, self.num_streams as nat, " streams"@),
            plain("flags"@, prefixed_hex("0x"@, self.flags as nat, 4)),
        ]
    }

    /// A chunk with the fields given.
    pub fn new(
        max_bit_rate: u32,
        avg_bit_rate: u32,
        max_packet_size: u32,
        avg_packet_size: u32,
        num_packets: u32,
        duration: u32,
        preroll: u32,
        index_offset: u32,
        data_offset: u32,
        num_streams: u16,
        flags: u16,
    ) -> (c: PropChunk)
        ensures
            c == (PropChunk {
                max_bit_rate,
                avg_bit_rate,
                max_packet_size,
                avg_packet_size,
                num_packets,
                duration,
                preroll,
                index_offset,
                data_offset,
                num_streams,
                flags,
            }),
    {
        PropChunk {
            max_bit_rate,
            avg_bit_rate,
            max_packet_size,
            avg_packet_size,
            num_packets,
            duration,
            preroll,
            index_offset,
            data_offset,
            num_streams,
            flags,
        }
    }

    /// One line that says what kind of record this is.
    pub fn description(&self) -> (s: &'static str)
        ensures
            s@ == "File Properties"@,
    {
        "File Properties"
    }

    /// Appends the decoded fields to `properties`, in the order in which they are shown.
    pub fn fill_properties(&self, properties: &mut Vec<Property>)
        ensures
            property_views(final(properties)@) == property_views(old(properties)@) + self.properties(),
    {
        push_measured(properties, "max_bit_rate", self.max_bit_rate as u64, " bps");
        push_measured(properties, "avg_bit_rate", self.avg_bit_rate as u64, " bps");
        push_measured(properties, "max_packet_size", self.max_packet_size as u64, " bytes");
        push_measured(properties, "avg_packet_size", self.avg_packet_size as u64, " bytes");
        push_measured(properties, "num_packets", self.num_packets as u64, " packets");
        push_measured(properties, "duration", self.duration as u64, " ms");
        push_measured(properties, "preroll", self.preroll as u64, " ms");
        push_shown(
            properties,
            "index_offset",
            u64_to_string(self.index_offset as u64),
            prefixed_hex_string("0x", self.index_offset as u64, 8),
        );
        push_shown(
            properties,
            "data_offset",
            u64_to_string(self.data_offset as u64),
            prefixed_hex_string("0x", self.data_offset as u64, 8),
        );
        push_measured(properties, "num_streams", self.num_streams as u64, " streams");
        push_plain(properties, "flags", prefixed_hex_string("0x", self.flags as u64, 4));
        assert(property_views(properties@) =~= property_views(old(properties)@) + self.properties());
    }
}

} // verus!
