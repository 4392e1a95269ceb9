//! The `MDPR` chunk: rates, sizes, times, name and type of one stream.

use super::cont::{
    push_unless_empty, strict_text, strict_text_reads_back, unless_empty, writable_text,
};
use crate::analyzer::{
    labelled, measured, property_views, push_labelled, push_measured, push_shown, shown, Property,
    PropertyView,
};
use crate::error::{IoErrorKind, MediaErrorView};
use crate::encoding::{
    holds, holds_both, reads_back_u16, reads_back_u32, reads_back_u8, u16_bytes, u32_bytes,
};
use crate::reader::{be_u16, be_u32, bytes_at, readable, u8_at};
use crate::text::{
    bracketed, bracketed_string, decimal, hex, string_views, u64_to_hex, u64_to_string,
};
use vstd::prelude::*;
use vstd::string::StringExecFns;
use vstd::utf8::encode_utf8;

verus! {

/// The decoded fields of an `MDPR` chunk.
#[derive(Debug)]
pub struct MdprChunk {
    stream_number: u16,
    max_bit_rate: u32,
    avg_bit_rate: u32,
    max_packet_size: u32,
    avg_packet_size: u32,
    start_time: u32,
    preroll: u32,
    duration: u32,
    stream_name: String,
    mime_type: String,
    type_specific_len: u32,
    type_specific_data: Vec<u8>,
}

/// Mathematical value of a [`MdprChunk`].
pub struct MdprView {
    pub stream_number: u16,
    pub max_bit_rate: u32,
    pub avg_bit_rate: u32,
    pub max_packet_size: u32,
    pub avg_packet_size: u32,
    pub start_time: u32,
    pub preroll: u32,
    pub duration: u32,
    pub stream_name: Seq<char>,
    pub mime_type: Seq<char>,
    pub type_specific_len: u32,
    pub type_specific_data: Seq<u8>,
}

impl View for MdprChunk {
    type V = MdprView;

    closed spec fn view(&self) -> MdprView {
        MdprView {
            stream_number: self.stream_number,
            max_bit_rate: self.max_bit_rate,
            avg_bit_rate: self.avg_bit_rate,
            max_packet_size: self.max_packet_size,
            avg_packet_size: self.avg_packet_size,
            start_time: self.start_time,
            preroll: self.preroll,
            duration: self.duration,
            stream_name: self.stream_name@,
            mime_type: self.mime_type@,
            type_specific_len: self.type_specific_len,
            type_specific_data: self.type_specific_data@,
        }
    }
}

/// Each byte as two hexadecimal digits.
pub open spec fn byte_texts(bytes: Seq<u8>) -> Seq<Seq<char>> {
    Seq::new(bytes.len(), |i: int| hex(bytes[i] as nat, 2))
}

impl MdprView {
    /// The chunk read from a payload of `size` bytes at offset `at`: the
    /// stream number, seven 32-bit numbers, the 8-bit lengths of name and MIME
    /// type, the 32-bit length of the type-specific bytes, then the name, the
    /// MIME type and the bytes.
    pub open spec fn decode(data: Seq<u8>, at: int, size: int) -> Result<MdprView, MediaErrorView> {
        let name_len = u8_at(data, at + 30) as int;
        let mime_len = u8_at(data, at + 31) as int;
        let specific_len = be_u32(data, at + 32);
        let mime_at = at + 36 + name_len;
        let specific_at = mime_at + mime_len;
        if size < 36 {
            Err(MediaErrorView::InvalidBoxSize)
        } else if !readable(data, at, 36) {
            Err(MediaErrorView::Io(IoErrorKind::UnexpectedEof))
        } else if size < 36 + name_len + mime_len + specific_len {
            Err(MediaErrorView::InvalidBoxSize)
        } else {
            match strict_text(data, at + 36, name_len) {
                Err(e) => Err(e),
                Ok(stream_name) => match strict_text(data, mime_at, mime_len) {
                    Err(e) => Err(e),
                    Ok(mime_type) => if !readable(data, specific_at, specific_len as int) {
                        Err(MediaErrorView::Io(IoErrorKind::UnexpectedEof))
                    } else {
                        Ok(
                            MdprView {
                                stream_number: be_u16(data, at),
                                max_bit_rate: be_u32(data, at + 2),
                                avg_bit_rate: be_u32(data, at + 6),
                                max_packet_size: be_u32(data, at + 10),
                                avg_packet_size: be_u32(data, at + 14),
                                start_time: be_u32(data, at + 18),
                                preroll: be_u32(data, at + 22),
                                duration: be_u32(data, at + 26),
                                stream_name,
                                mime_type,
                                type_specific_len: specific_len,
                                type_specific_data: bytes_at(data, specific_at, specific_len as int),
                            },
                        )
                    },
                },
            }
        }
    }

    /// Whether the chunk can be written down: the bytes of the name and of
    /// the MIME type are at most 255 each and do not end with a zero byte, and
    /// the chunk declares as many type-specific bytes as it has.
    pub open spec fn encodable(self) -> bool {
        &&& writable_text(self.stream_name, 0xff)
        &&& writable_text(self.mime_type, 0xff)
        &&& self.type_specific_len == self.type_specific_data.len()
    }

    /// The numbers that begin the chunk as bytes.
    pub open spec fn encode_numbers(self) -> Seq<u8> {
        u16_bytes(self.stream_number) + u32_bytes(self.max_bit_rate) + u32_bytes(self.avg_bit_rate)
            + u32_bytes(self.max_packet_size) + u32_bytes(self.avg_packet_size) + u32_bytes(self.start_time)
            + u32_bytes(self.preroll) + u32_bytes(self.duration)
    }

    /// The payload that holds the chunk: the numbers, the three lengths, the
    /// name, the MIME type and the type-specific bytes.
    pub open spec fn encode(self) -> Seq<u8> {
        self.encode_numbers() + seq![encode_utf8(self.stream_name).len() as u8] + seq![
            encode_utf8(self.mime_type).len() as u8,
        ] + u32_bytes(self.type_specific_len) + encode_utf8(self.stream_name) + encode_utf8(self.mime_type)
            + self.type_specific_data
    }

    /// The numbers that stand in `data` are read back.
    #[verifier::rlimit(40)]
    proof fn numbers_read_back(self, data: Seq<u8>, at: int)
        requires
            holds(data, at, self.encode_numbers()),
        ensures
            self.encode_numbers().len() == 30,
            readable(data, at, 30),
            be_u16(data, at) == self.stream_number,
            be_u32(data, at + 2) == self.max_bit_rate,
            be_u32(data, at + 6) == self.avg_bit_rate,
            be_u32(data, at + 10) == self.max_packet_size,
            be_u32(data, at + 14) == self.avg_packet_size,
            be_u32(data, at + 18) == self.start_time,
            be_u32(data, at + 22) == self.preroll,
            be_u32(data, at + 26) == self.duration,
    {
        let h0 = u16_bytes(self.stream_number);
        let h1 = h0 + u32_bytes(self.max_bit_rate);
        let h2 = h1 + u32_bytes(self.avg_bit_rate);
        let h3 = h2 + u32_bytes(self.max_packet_size);
        let h4 = h3 + u32_bytes(self.avg_packet_size);
        let h5 = h4 + u32_bytes(self.start_time);
        let h6 = h5 + u32_bytes(self.preroll);
        holds_both(data, at, h6, u32_bytes(self.duration));
        holds_both(data, at, h5, u32_bytes(self.preroll));
        holds_both(data, at, h4, u32_bytes(self.start_time));
        holds_both(data, at, h3, u32_bytes(self.avg_packet_size));
        holds_both(data, at, h2, u32_bytes(self.max_packet_size));
        holds_both(data, at, h1, u32_bytes(self.avg_bit_rate));
        holds_both(data, at, h0, u32_bytes(self.max_bit_rate));
        reads_back_u16(data, at, self.stream_number);
        reads_back_u32(data, at + 2, self.max_bit_rate);
        reads_back_u32(data, at + 6, self.avg_bit_rate);
        reads_back_u32(data, at + 10, self.max_packet_size);
        reads_back_u32(data, at + 14, self.avg_packet_size);
        reads_back_u32(data, at + 18, self.start_time);
        reads_back_u32(data, at + 22, self.preroll);
        reads_back_u32(data, at + 26, self.duration);
    }

    /// Decoding the bytes that a chunk was written down as gives the chunk
    /// back.
    #[verifier::rlimit(40)]
    pub proof fn decode_inverts_encode(self, data: Seq<u8>, at: int)
        requires
            self.encodable(),
            holds(data, at, self.encode()),
        ensures
            Self::decode(data, at, self.encode().len() as int) == Ok::<MdprView, MediaErrorView>(self),
    {
        let name = encode_utf8(self.stream_name);
        let mime = encode_utf8(self.mime_type);
        let h0 = self.encode_numbers();
        let h1 = h0 + seq![name.len() as u8];
        let h2 = h1 + seq![mime.len() as u8];
        let h3 = h2 + u32_bytes(self.type_specific_len);
        let h4 = h3 + name;
        let h5 = h4 + mime;
        holds_both(data, at, h5, self.type_specific_data);
        holds_both(data, at, h4, mime);
        holds_both(data, at, h3, name);
        holds_both(data, at, h2, u32_bytes(self.type_specific_len));
        holds_both(data, at, h1, seq![mime.len() as u8]);
        holds_both(data, at, h0, seq![name.len() as u8]);
        self.numbers_read_back(data, at);
        reads_back_u8(data, at + 30, name.len() as u8);
        reads_back_u8(data, at + 31, mime.len() as u8);
        reads_back_u32(data, at + 32, self.type_specific_len);
        strict_text_reads_back(data, at + 36, self.stream_name);
        strict_text_reads_back(data, at + 36 + name.len(), self.mime_type);
        let got = Self::decode(data, at, self.encode().len() as int);
        assert(got is Ok);
        assert(got->Ok_0.type_specific_data =~= self.type_specific_data);
    }

    /// The numbers with their units, the name and the MIME type unless they
    /// are empty, and the type-specific bytes: their declared number as the
    /// value, the bytes in hexadecimal as the readable value.
    pub open spec fn properties(self) -> Seq<PropertyView> {
        seq![
            labelled("stream_number"@, "Stream #"@, self.stream_number as nat),
            measured("max_bit_rate"@, self.max_bit_rate as nat, " bps"@),
            measured("avg_bit_rate"@, self.avg_bit_rate as nat, " bps"@),
            measured("max_packet_size"@, self.max_packet_size as nat, " bytes"@),
            measured("avg_packet_size"@, self.avg_packet_size as nat, " bytes"@),
            measured("start_time"@, self.start_time as nat, " ms"@),
            measured("preroll"@, self.preroll as nat, " ms"@),
            measured("duration"@, self.duration as nat, " ms"@),
        ] + unless_empty("stream_name"@, self.stream_name) + unless_empty("mime_type"@, self.mime_type)
            + seq![
            shown(
                "type_specific_data"@,
                decimal(self.type_specific_len as nat) + " bytes"@,
                "0x"@ + bracketed(byte_texts(self.type_specific_data)),
            ),
        ]
    }
}

impl MdprChunk {
    /// A chunk with the fields given.
    pub fn new(
        stream_number: u16,
        max_bit_rate: u32,
        avg_bit_rate: u32,
        max_packet_size: u32,
        avg_packet_size: u32,
        start_time: u32,
        preroll: u32,
        duration: u32,
        stream_name: String,
        mime_type: String,
        type_specific_len: u32,
        type_specific_data: Vec<u8>,
    ) -> (c: MdprChunk)
        ensures
            c@ == (MdprView {
                stream_number,
                max_bit_rate,
                avg_bit_rate,
                max_packet_size,
                avg_packet_size,
                start_time,
                preroll,
                duration,
                stream_name: stream_name@,
                mime_type: mime_type@,
                type_specific_len,
                type_specific_data: type_specific_data@,
            }),
    {
        MdprChunk {
            stream_number,
            max_bit_rate,
            avg_bit_rate,
            max_packet_size,
            avg_packet_size,
            start_time,
            preroll,
            duration,
            stream_name,
            mime_type,
            type_specific_len,
            type_specific_data,
        }
    }

    /// One line that says what kind of record this is.
    pub fn description(&self) -> (s: &'static str)
        ensures
            s@ == "Media Properties"@,
    {
        "Media Properties"
    }

    /// The bytes in hexadecimal, in square brackets after `0x`.
    fn data_text(&self) -> (s: String)
        ensures
            s@ == "0x"@ + bracketed(byte_texts(self@.type_specific_data)),
    {
        let mut items: Vec<String> = Vec::new();
        let mut i: usize = 0;
        while i < self.type_specific_data.len()
            invariant
                i <= self.type_specific_data.len(),
                items@.len() == i,
                forall|j: int| 0 <= j < i ==> items@[j]@ == hex(self.type_specific_data@[j] as nat, 2),
            decreases self.type_specific_data.len() - i,
        {
            items.push(u64_to_hex(self.type_specific_data[i] as u64, 2));
            i = i + 1;
        }
        proof {
            assert(string_views(items@) =~= byte_texts(self@.type_specific_data));
        }
        let mut s = String::from_str("0x");
        s.append(bracketed_string(&items).as_str());
        s
    }

    /// Appends the decoded fields to `properties`, in the order in which they are shown.
    pub fn fill_properties(&self, properties: &mut Vec<Property>)
        ensures
            property_views(final(properties)@) == property_views(old(properties)@) + self@.properties(),
    {
        push_labelled(properties, "stream_number", "Stream #", self.stream_number as u64);
        push_measured(properties, "max_bit_rate", self.max_bit_rate as u64, " bps");
        push_measured(properties, "avg_bit_rate", self.avg_bit_rate as u64, " bps");
        push_measured(properties, "max_packet_size", self.max_packet_size as u64, " bytes");
        push_measured(properties, "avg_packet_size", self.avg_packet_size as u64, " bytes");
        push_measured(properties, "start_time", self.start_time as u64, " ms");
        push_measured(properties, "preroll", self.preroll as u64, " ms");
        push_measured(properties, "duration", self.duration as u64, " ms");
        push_unless_empty(properties, "stream_name", &self.stream_name);
        push_unless_empty(properties, "mime_type", &self.mime_type);
        let mut length = u64_to_string(self.type_specific_len as u64);
        length.append(" bytes");
        push_shown(properties, "type_specific_data", length, self.data_text());
        assert(property_views(properties@) =~= property_views(old(properties)@) + self@.properties());
    }
}

} // verus!
