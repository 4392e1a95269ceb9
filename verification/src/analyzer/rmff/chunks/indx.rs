//! The `INDX` chunk: where the packets of one stream lie, by time.

use crate::analyzer::{
    capped_len, indexed, indexed_string, labelled, listed, listed_len, measured, plain,
    property_views, push_labelled, push_measured, push_plain, push_remainder, remainder,
    shown_count, Property, PropertyView,
};
use crate::error::{IoErrorKind, MediaErrorView};
use crate::encoding::{
    holds, holds_both, holds_row, reads_back_u16, reads_back_u32, rows_bytes, u16_bytes, u32_bytes,
};
use crate::reader::{be_u16, be_u32, readable};
use crate::text::{prefixed_hex, prefixed_hex_string};
use vstd::prelude::*;

verus! {

/// One index entry: a time, the offset of the packet for it, and the number
/// of that packet.
#[derive(Debug, Clone, Copy, PartialEq, Eq, Structural)]
pub struct IndexEntry {
    pub timestamp: u32,
    pub offset: u32,
    pub packet_count: u32,
}

impl IndexEntry {
    /// An entry with the fields given.
    pub fn new(timestamp: u32, offset: u32, packet_count: u32) -> (e: IndexEntry)
        ensures
            e == (IndexEntry { timestamp, offset, packet_count }),
    {
        IndexEntry { timestamp, offset, packet_count }
    }
}

/// The entries of an index, the stream they belong to, and the offset of the
/// next index as the file declares it.  The offset is kept and not followed.
#[derive(Debug)]
pub struct IndxChunk {
    num_entries: u32,
    stream_number: u16,
    next_index_header: u32,
    entries: Vec<IndexEntry>,
}

/// Mathematical value of an [`IndxChunk`].
pub struct IndxView {
    pub num_entries: u32,
    pub stream_number: u16,
    pub next_index_header: u32,
    pub entries: Seq<IndexEntry>,
}

impl View for IndxChunk {
    type V = IndxView;

    closed spec fn view(&self) -> IndxView {
        IndxView {
            num_entries: self.num_entries,
            stream_number: self.stream_number,
            next_index_header: self.next_index_header,
            entries: self.entries@,
        }
    }
}

impl IndxView {
    /// The entry with index `i` of the chunk whose payload begins at `at`.
    pub open spec fn entry_at(data: Seq<u8>, at: int, i: int) -> IndexEntry {
        IndexEntry {
            timestamp: be_u32(data, at + 10 + 12 * i),
            offset: be_u32(data, at + 14 + 12 * i),
            packet_count: be_u32(data, at + 18 + 12 * i),
        }
    }

    /// The chunk read from a payload of `size` bytes at offset `at`: the
    /// number of entries, the stream number, the offset of the next index, and
    /// the entries of twelve bytes each.
    pub open spec fn decode(data: Seq<u8>, at: int, size: int) -> Result<IndxView, MediaErrorView> {
        let count = be_u32(data, at);
        if size < 10 {
            Err(MediaErrorView::InvalidBoxSize)
        } else if !readable(data, at, 10) {
            Err(MediaErrorView::Io(IoErrorKind::UnexpectedEof))
        } else if size < 10 + 12 * count {
            Err(MediaErrorView::InvalidBoxSize)
        } else if !readable(data, at, 10 + 12 * count) {
            Err(MediaErrorView::Io(IoErrorKind::UnexpectedEof))
        } else {
            Ok(
                IndxView {
                    num_entries: count,
                    stream_number: be_u16(data, at + 4),
                    next_index_header: be_u32(data, at + 6),
                    entries: Seq::new(count as nat, |i: int| Self::entry_at(data, at, i)),
                },
            )
        }
    }

    /// Whether the chunk can be written down: it declares as many entries as
    /// it has.
    pub open spec fn encodable(self) -> bool {
        self.num_entries == self.entries.len()
    }

    /// The twelve bytes of an entry.
    pub open spec fn entry_bytes(e: IndexEntry) -> Seq<u8> {
        u32_bytes(e.timestamp) + u32_bytes(e.offset) + u32_bytes(e.packet_count)
    }

    /// The bytes of the row at an index, as a function of the index.
    pub open spec fn each_row(self) -> spec_fn(int) -> Seq<u8> {
        |i: int| Self::entry_bytes(self.entries[i])
    }

    /// The payload that holds the chunk: the number of entries, the stream
    /// number, the offset of the next index, and the entries.
    pub open spec fn encode(self) -> Seq<u8> {
        u32_bytes(self.num_entries) + u16_bytes(self.stream_number) + u32_bytes(self.next_index_header)
            + rows_bytes(self.entries.len(), 12, self.each_row())
    }

    /// Decoding the bytes that a chunk was written down as gives the chunk
    /// back.
    pub proof fn decode_inverts_encode(self, data: Seq<u8>, at: int)
        requires
            self.encodable(),
            holds(data, at, self.encode()),
        ensures
            Self::decode(data, at, self.encode().len() as int) == Ok::<IndxView, MediaErrorView>(self),
    {
        let count = self.entries.len();
        let rows = rows_bytes(count, 12, self.each_row());
        let h0 = u32_bytes(self.num_entries);
        let h1 = h0 + u16_bytes(self.stream_number);
        let h2 = h1 + u32_bytes(self.next_index_header);
        holds_both(data, at, h2, rows);
        holds_both(data, at, h1, u32_bytes(self.next_index_header));
        holds_both(data, at, h0, u16_bytes(self.stream_number));
        reads_back_u32(data, at, self.num_entries);
        reads_back_u16(data, at + 4, self.stream_number);
        reads_back_u32(data, at + 6, self.next_index_header);
        assert forall|i: int| 0 <= i < count implies Self::entry_at(data, at, i) == self.entries[i] by {
            let e = self.entries[i];
            holds_row(data, at + 10, count, 12, self.each_row(), i);
            holds_both(data, at + 10 + 12 * i, u32_bytes(e.timestamp) + u32_bytes(e.offset), u32_bytes(e.packet_count));
            holds_both(data, at + 10 + 12 * i, u32_bytes(e.timestamp), u32_bytes(e.offset));
            reads_back_u32(data, at + 10 + 12 * i, e.timestamp);
            reads_back_u32(data, at + 14 + 12 * i, e.offset);
            reads_back_u32(data, at + 18 + 12 * i, e.packet_count);
        }
        let got = Self::decode(data, at, self.encode().len() as int);
        assert(got is Ok);
        assert(got->Ok_0.entries =~= self.entries);
    }

    /// The three properties of the entry with index `i`.
    pub open spec fn entry_properties(self, i: int) -> Seq<PropertyView> {
        seq![
            measured(indexed("entry["@, i as nat, "].timestamp"@), self.entries[i].timestamp as nat, " ms"@),
            plain(
                indexed("entry["@, i as nat, "].offset"@),
                prefixed_hex("0x"@, self.entries[i].offset as nat, 8),
            ),
            measured(
                indexed("entry["@, i as nat, "].packet_count"@),
                self.entries[i].packet_count as nat,
                " packets"@,
            ),
        ]
    }

    /// The properties of the entry at an index, as a function of the index.
    pub open spec fn each_entry(self) -> spec_fn(int) -> Seq<PropertyView> {
        |i: int| self.entry_properties(i)
    }

    /// The declared number of entries, the stream and the next index, then
    /// the first five entries and one property for the rest.
    pub open spec fn properties(self) -> Seq<PropertyView> {
        seq![
            measured("num_entries"@, self.num_entries as nat, " entries"@),
            labelled("stream_number"@, "Stream #"@, self.stream_number as nat),
            plain("next_index_header"@, prefixed_hex("0x"@, self.next_index_header as nat, 8)),
        ] + listed(shown_count(self.entries.len()), self.each_entry()) + remainder(
            self.entries.len(),
            " more entries"@,
        )
    }

    /// The list of properties is short however long the list of entries
    /// is: 3 fixed properties, 3 for each of the first five entries,
    /// and one for the rest where there are more than five.
    pub proof fn properties_are_capped(self)
        ensures
            self.properties().len() == 3 + capped_len(self.entries.len(), 3),
    {
        listed_len(shown_count(self.entries.len()), self.each_entry(), 3);
    }
}

impl IndxChunk {
    /// A chunk with the fields given.
    pub fn new(num_entries: u32, stream_number: u16, next_index_header: u32, entries: Vec<IndexEntry>) -> (c:
        IndxChunk)
        ensures
            c@ == (IndxView { num_entries, stream_number, next_index_header, entries: entries@ }),
    {
        IndxChunk { num_entries, stream_number, next_index_header, entries }
    }

    /// One line that says what kind of record this is.
    pub fn description(&self) -> (s: &'static str)
        ensures
            s@ == "Index"@,
    {
        "Index"
    }

    /// Appends the decoded fields to `properties`, in the order in which they are
    /// shown: the fixed ones, those of the first five entries, and one for the
    /// rest where there are more than five.
    pub fn fill_properties(&self, properties: &mut Vec<Property>)
        ensures
            property_views(final(properties)@) == property_views(old(properties)@) + self@.properties(),
            self@.properties().len() == 3 + capped_len(self@.entries.len(), 3),
    {
        proof {
            self@.properties_are_capped();
        }
        push_measured(properties, "num_entries", self.num_entries as u64, " entries");
        push_labelled(properties, "stream_number", "Stream #", self.stream_number as u64);
        push_plain(properties, "next_index_header", prefixed_hex_string("0x", self.next_index_header as u64, 8));
        let ghost head = property_views(properties@);
        assert(head =~= property_views(old(properties)@) + seq![
            measured("num_entries"@, self.num_entries as nat, " entries"@),
            labelled("stream_number"@, "Stream #"@, self.stream_number as nat),
            plain("next_index_header"@, prefixed_hex("0x"@, self.next_index_header as nat, 8)),
        ]);
        let shown_entries: usize = if self.entries.len() > 5 { 5 } else { self.entries.len() };
        let mut i: usize = 0;
        while i < shown_entries
            invariant
                i <= shown_entries <= self.entries.len(),
                property_views(properties@) == head + listed(i as nat, self@.each_entry()),
            decreases shown_entries - i,
        {
            let ghost before = property_views(properties@);
            let entry = &self.entries[i];
            push_measured(
                properties,
                indexed_string("entry[", i, "].timestamp").as_str(),
                entry.timestamp as u64,
                " ms",
            );
            push_plain(
                properties,
                indexed_string("entry[", i, "].offset").as_str(),
                prefixed_hex_string("0x", entry.offset as u64, 8),
            );
            push_measured(
                properties,
                indexed_string("entry[", i, "].packet_count").as_str(),
                entry.packet_count as u64,
                " packets",
            );
            proof {
                assert(property_views(properties@) =~= before + self@.entry_properties(i as int));
                assert(listed((i + 1) as nat, self@.each_entry()) == listed(i as nat, self@.each_entry())
                    + self@.entry_properties(i as int));
                assert(property_views(properties@) =~= head + listed((i + 1) as nat, self@.each_entry()));
            }
            i = i + 1;
        }
        push_remainder(properties, self.entries.len(), " more entries");
        assert(property_views(properties@) =~= property_views(old(properties)@) + self@.properties());
    }
}

} // verus!
