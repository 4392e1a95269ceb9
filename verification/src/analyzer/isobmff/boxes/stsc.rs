//! The `stsc` box: runs of chunks that hold equally many samples.

use crate::analyzer::{
    capped_len, flags_string, flags_text, indexed, indexed_string, listed, listed_len, plain,
    property_views, push_plain, push_remainder, remainder, shown_count, Property, PropertyView,
};
use crate::encoding::{
    holds, holds_both, holds_row, reads_back_u24, reads_back_u32, reads_back_u8, rows_bytes,
    u24_bytes, u32_bytes,
};
use crate::reader::{be_u24, be_u32, readable, u8_at};
use crate::text::{decimal, u64_to_string};
use vstd::prelude::*;

verus! {

/// The decoded fields of an `stsc` box.
#[derive(Debug)]
pub struct SampleToChunkBox {
    version: u8,
    flags: u32,
    entries: Vec<SampleToChunkEntry>,
}

/// A run: its first chunk, the samples in each chunk, and the sample
/// description they use.
#[derive(Debug, Clone, Copy, PartialEq, Eq, Structural)]
pub struct SampleToChunkEntry {
    pub first_chunk: u32,
    pub samples_per_chunk: u32,
    pub sample_description_index: u32,
}

/// Mathematical value of a [`SampleToChunkBox`].
pub struct SampleToChunkView {
    pub version: u8,
    pub flags: u32,
    pub entries: Seq<SampleToChunkEntry>,
}

impl View for SampleToChunkBox {
    type V = SampleToChunkView;

    closed spec fn view(&self) -> SampleToChunkView {
        SampleToChunkView { version: self.version, flags: self.flags, entries: self.entries@ }
    }
}

impl SampleToChunkView {
    /// The entry with index `i` of the box whose payload begins at `at`.
    pub open spec fn entry_at(data: Seq<u8>, at: int, i: int) -> SampleToChunkEntry {
        SampleToChunkEntry {
            first_chunk: be_u32(data, at + 8 + 12 * i),
            samples_per_chunk: be_u32(data, at + 12 + 12 * i),
            sample_description_index: be_u32(data, at + 16 + 12 * i),
        }
    }

    /// The box read from a payload of `size` bytes at offset `at`: version,
    /// flags, the number of entries, and the entries of twelve bytes each.
    pub open spec fn decode(data: Seq<u8>, at: int, size: int) -> Option<SampleToChunkView> {
        let count = be_u32(data, at + 4);
        if readable(data, at, 8) && size >= 8 + 12 * count && readable(data, at, 8 + 12 * count) {
            Some(
                SampleToChunkView {
                    version: u8_at(data, at),
                    flags: be_u24(data, at + 1),
                    entries: Seq::new(count as nat, |i: int| Self::entry_at(data, at, i)),
                },
            )
        } else {
            None
        }
    }

    /// Whether the box can be written down: its flags fit in 24 bits and the
    /// number of its entries in 32.
    pub open spec fn encodable(self) -> bool {
        self.flags < 0x100_0000 && self.entries.len() <= u32::MAX
    }

    /// The twelve bytes of an entry.
    pub open spec fn entry_bytes(e: SampleToChunkEntry) -> Seq<u8> {
        u32_bytes(e.first_chunk) + u32_bytes(e.samples_per_chunk) + u32_bytes(e.sample_description_index)
    }

    /// The bytes of the row at an index, as a function of the index.
    pub open spec fn each_row(self) -> spec_fn(int) -> Seq<u8> {
        |i: int| Self::entry_bytes(self.entries[i])
    }

    /// The payload that holds the box: version, flags, the number of entries,
    /// and the entries.
    pub open spec fn encode(self) -> Seq<u8> {
        seq![self.version] + u24_bytes(self.flags) + u32_bytes(self.entries.len() as u32) + rows_bytes(
            self.entries.len(),
            12,
            self.each_row(),
        )
    }

    /// Decoding the bytes that a box was written down as gives the box back.
    pub proof fn decode_inverts_encode(self, data: Seq<u8>, at: int)
        requires
            self.encodable(),
            holds(data, at, self.encode()),
        ensures
            Self::decode(data, at, self.encode().len() as int) == Some(self),
    {
        let count = self.entries.len();
        let rows = rows_bytes(count, 12, self.each_row());
        let h0 = seq![self.version];
        let h1 = h0 + u24_bytes(self.flags);
        let h2 = h1 + u32_bytes(count as u32);
        holds_both(data, at, h2, rows);
        holds_both(data, at, h1, u32_bytes(count as u32));
        holds_both(data, at, h0, u24_bytes(self.flags));
        reads_back_u8(data, at, self.version);
        reads_back_u24(data, at + 1, self.flags);
        reads_back_u32(data, at + 4, count as u32);
        assert forall|i: int| 0 <= i < count implies Self::entry_at(data, at, i) == self.entries[i] by {
            let e = self.entries[i];
            holds_row(data, at + 8, count, 12, self.each_row(), i);
            holds_both(
                data,
                at + 8 + 12 * i,
                u32_bytes(e.first_chunk) + u32_bytes(e.samples_per_chunk),
                u32_bytes(e.sample_description_index),
            );
            holds_both(data, at + 8 + 12 * i, u32_bytes(e.first_chunk), u32_bytes(e.samples_per_chunk));
            reads_back_u32(data, at + 8 + 12 * i, e.first_chunk);
            reads_back_u32(data, at + 12 + 12 * i, e.samples_per_chunk);
            reads_back_u32(data, at + 16 + 12 * i, e.sample_description_index);
        }
        let got = Self::decode(data, at, self.encode().len() as int);
        assert(got is Some);
        assert(got->0.entries =~= self.entries);
    }

    /// The three properties of the entry with index `i`.
    pub open spec fn entry_properties(self, i: int) -> Seq<PropertyView> {
        seq![
            plain(indexed("entry["@, i as nat, "].first_chunk"@), decimal(self.entries[i].first_chunk as nat)),
            plain(
                indexed("entry["@, i as nat, "].samples_per_chunk"@),
                decimal(self.entries[i].samples_per_chunk as nat),
            ),
            plain(
                indexed("entry["@, i as nat, "].sample_description_index"@),
                decimal(self.entries[i].sample_description_index as nat),
            ),
        ]
    }

    /// The properties of the entry at an index, as a function of the index.
    pub open spec fn each_entry(self) -> spec_fn(int) -> Seq<PropertyView> {
        |i: int| self.entry_properties(i)
    }

    /// Version, flags and the number of entries, then the first five entries
    /// and one property for the rest.
    pub open spec fn properties(self) -> Seq<PropertyView> {
        seq![
            plain("version"@, decimal(self.version as nat)),
            plain("flags"@, flags_text(self.flags)),
            plain("entry_count"@, decimal(self.entries.len())),
        ] + listed(shown_count(self.entries.len()), self.each_entry()) + remainder(
            self.entries.len(),
            " more entries"@,
        )
    }

    /// The list of properties is short however long the list of entries
    /// is: 3 fixed properties, 3 for each of the first five entries,
    /// and one for the rest where there are more than five.
    pub proof fn properties_are_capped(self)
        ensures
            self.properties().len() == 3 + capped_len(self.entries.len(), 3),
    {
        listed_len(shown_count(self.entries.len()), self.each_entry(), 3);
    }
}

impl SampleToChunkBox {
    /// A box with the fields given.
    pub fn new(version: u8, flags: u32, entries: Vec<SampleToChunkEntry>) -> (b: SampleToChunkBox)
        ensures
            b@ == (SampleToChunkView { version, flags, entries: entries@ }),
    {
        SampleToChunkBox { version, flags, entries }
    }

    /// One line that says what kind of record this is.
    pub fn description(&self) -> (s: &'static str)
        ensures
            s@ == "Sample To Chunk Box"@,
    {
        "Sample To Chunk Box"
    }

    /// Appends the decoded fields to `properties`, in the order in which they are
    /// shown: the fixed ones, those of the first five entries, and one for the
    /// rest where there are more than five.
    pub fn fill_properties(&self, properties: &mut Vec<Property>)
        ensures
            property_views(final(properties)@) == property_views(old(properties)@) + self@.properties(),
            self@.properties().len() == 3 + capped_len(self@.entries.len(), 3),
    {
        proof {
            self@.properties_are_capped();
        }
        push_plain(properties, "version", u64_to_string(self.version as u64));
        push_plain(properties, "flags", flags_string(self.flags));
        push_plain(properties, "entry_count", u64_to_string(self.entries.len() as u64));
        let ghost head = property_views(properties@);
        assert(head =~= property_views(old(properties)@) + seq![
            plain("version"@, decimal(self.version as nat)),
            plain("flags"@, flags_text(self.flags)),
            plain("entry_count"@, decimal(self.entries.len() as nat)),
        ]);
        let shown: usize = if self.entries.len() > 5 { 5 } else { self.entries.len() };
        let mut i: usize = 0;
        while i < shown
            invariant
                i <= shown <= self.entries.len(),
                property_views(properties@) == head + listed(i as nat, self@.each_entry()),
            decreases shown - i,
        {
            let ghost before = property_views(properties@);
            let entry = &self.entries[i];
            push_plain(
                properties,
                indexed_string("entry[", i, "].first_chunk").as_str(),
                u64_to_string(entry.first_chunk as u64),
            );
            push_plain(
                properties,
                indexed_string("entry[", i, "].samples_per_chunk").as_str(),
                u64_to_string(entry.samples_per_chunk as u64),
            );
            push_plain(
                properties,
                indexed_string("entry[", i, "].sample_description_index").as_str(),
                u64_to_string(entry.sample_description_index as u64),
            );
            proof {
                assert(property_views(properties@) =~= before + self@.entry_properties(i as int));
                assert(listed((i + 1) as nat, self@.each_entry()) == listed(i as nat, self@.each_entry())
                    + self@.entry_properties(i as int));
                assert(property_views(properties@) =~= head + listed((i + 1) as nat, self@.each_entry()));
            }
            i = i + 1;
        }
        push_remainder(properties, self.entries.len(), " more entries");
        assert(property_views(properties@) =~= property_views(old(properties)@) + self@.properties());
    }
}

impl SampleToChunkEntry {
    /// An entry with the fields given.
    pub fn new(first_chunk: u32, samples_per_chunk: u32, sample_description_index: u32) -> (e:
        SampleToChunkEntry)
        ensures
            e == (SampleToChunkEntry { first_chunk, samples_per_chunk, sample_description_index }),
    {
        SampleToChunkEntry { first_chunk, samples_per_chunk, sample_description_index }
    }
}

} // verus!
