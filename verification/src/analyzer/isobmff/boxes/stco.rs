//! The `stco` box: where each chunk begins in the file.

use crate::analyzer::{
    capped_len, flags_string, flags_text, indexed, indexed_string, listed, listed_len, plain,
    property_views, push_plain, push_remainder, remainder, shown_count, Property, PropertyView,
};
use crate::encoding::{
    holds, holds_both, holds_row, reads_back_u24, reads_back_u32, reads_back_u8, rows_bytes,
    u24_bytes, u32_bytes,
};
use crate::reader::{be_u24, be_u32, readable, u8_at};
use crate::text::{decimal, prefixed_hex, prefixed_hex_string, u64_to_string};
use vstd::prelude::*;

verus! {

/// The decoded fields of an `stco` box.
#[derive(Debug)]
pub struct ChunkOffsetBox {
    version: u8,
    flags: u32,
    offsets: Vec<u64>,
}

/// Mathematical value of a [`ChunkOffsetBox`].
pub struct ChunkOffsetView {
    pub version: u8,
    pub flags: u32,
    pub offsets: Seq<u64>,
}

impl View for ChunkOffsetBox {
    type V = ChunkOffsetView;

    closed spec fn view(&self) -> ChunkOffsetView {
        ChunkOffsetView { version: self.version, flags: self.flags, offsets: self.offsets@ }
    }
}

impl ChunkOffsetView {
    /// The box read from a payload of `size` bytes at offset `at`: version,
    /// flags, the number of offsets, and the offsets of 32 bits each, kept as
    /// 64-bit numbers.
    pub open spec fn decode(data: Seq<u8>, at: int, size: int) -> Option<ChunkOffsetView> {
        let count = be_u32(data, at + 4);
        if readable(data, at, 8) && size >= 8 + 4 * count && readable(data, at, 8 + 4 * count) {
            Some(
                ChunkOffsetView {
                    version: u8_at(data, at),
                    flags: be_u24(data, at + 1),
                    offsets: Seq::new(count as nat, |i: int| be_u32(data, at + 8 + 4 * i) as u64),
                },
            )
        } else {
            None
        }
    }

    /// Whether the box can be written down: its flags fit in 24 bits, the
    /// number of its offsets in 32, and so does every offset.
    pub open spec fn encodable(self) -> bool {
        &&& self.flags < 0x100_0000
        &&& self.offsets.len() <= u32::MAX
        &&& forall|i: int| 0 <= i < self.offsets.len() ==> (#[trigger] self.offsets[i]) <= u32::MAX
    }

    /// The bytes of the row at an index, as a function of the index.
    pub open spec fn each_row(self) -> spec_fn(int) -> Seq<u8> {
        |i: int| u32_bytes(self.offsets[i] as u32)
    }

    /// The payload that holds the box: version, flags, the number of offsets,
    /// and the offsets.
    pub open spec fn encode(self) -> Seq<u8> {
        seq![self.version] + u24_bytes(self.flags) + u32_bytes(self.offsets.len() as u32) + rows_bytes(
            self.offsets.len(),
            4,
            self.each_row(),
        )
    }

    /// Decoding the bytes that a box was written down as gives the box back.
    pub proof fn decode_inverts_encode(self, data: Seq<u8>, at: int)
        requires
            self.encodable(),
            holds(data, at, self.encode()),
        ensures
            Self::decode(data, at, self.encode().len() as int) == Some(self),
    {
        let count = self.offsets.len();
        let rows = rows_bytes(count, 4, self.each_row());
        let h0 = seq![self.version];
        let h1 = h0 + u24_bytes(self.flags);
        let h2 = h1 + u32_bytes(count as u32);
        holds_both(data, at, h2, rows);
        holds_both(data, at, h1, u32_bytes(count as u32));
        holds_both(data, at, h0, u24_bytes(self.flags));
        reads_back_u8(data, at, self.version);
        reads_back_u24(data, at + 1, self.flags);
        reads_back_u32(data, at + 4, count as u32);
        assert forall|i: int| 0 <= i < count implies be_u32(data, at + 8 + 4 * i) as u64 == self.offsets[i] by {
            holds_row(data, at + 8, count, 4, self.each_row(), i);
            reads_back_u32(data, at + 8 + 4 * i, self.offsets[i] as u32);
        }
        let got = Self::decode(data, at, self.encode().len() as int);
        assert(got is Some);
        assert(got->0.offsets =~= self.offsets);
    }

    /// The property of the offset with index `i`.
    pub open spec fn entry_properties(self, i: int) -> Seq<PropertyView> {
        seq![plain(indexed("offset["@, i as nat, "]"@), prefixed_hex("0x"@, self.offsets[i] as nat, 1))]
    }

    /// The properties of the entry at an index, as a function of the index.
    pub open spec fn each_entry(self) -> spec_fn(int) -> Seq<PropertyView> {
        |i: int| self.entry_properties(i)
    }

    /// Version, flags and the number of offsets, then the first five offsets
    /// and one property for the rest.
    pub open spec fn properties(self) -> Seq<PropertyView> {
        seq![
            plain("version"@, decimal(self.version as nat)),
            plain("flags"@, flags_text(self.flags)),
            plain("entry_count"@, decimal(self.offsets.len())),
        ] + listed(shown_count(self.offsets.len()), self.each_entry()) + remainder(
            self.offsets.len(),
            " more"@,
        )
    }

    /// The list of properties is short however long the list of offsets
    /// is: 3 fixed properties, 1 for each of the first five offsets,
    /// and one for the rest where there are more than five.
    pub proof fn properties_are_capped(self)
        ensures
            self.properties().len() == 3 + capped_len(self.offsets.len(), 1),
    {
        listed_len(shown_count(self.offsets.len()), self.each_entry(), 1);
    }
}

impl ChunkOffsetBox {
    /// A box with the fields given.
    pub fn new(version: u8, flags: u32, offsets: Vec<u64>) -> (b: ChunkOffsetBox)
        ensures
            b@ == (ChunkOffsetView { version, flags, offsets: offsets@ }),
    {
        ChunkOffsetBox { version, flags, offsets }
    }

    /// One line that says what kind of record this is.
    pub fn description(&self) -> (s: &'static str)
        ensures
            s@ == "Chunk Offset Box"@,
    {
        "Chunk Offset Box"
    }

    /// Appends the decoded fields to `properties`, in the order in which they are
    /// shown: the fixed ones, those of the first five entries, and one for the
    /// rest where there are more than five.
    pub fn fill_properties(&self, properties: &mut Vec<Property>)
        ensures
            property_views(final(properties)@) == property_views(old(properties)@) + self@.properties(),
            self@.properties().len() == 3 + capped_len(self@.offsets.len(), 1),
    {
        proof {
            self@.properties_are_capped();
        }
        push_plain(properties, "version", u64_to_string(self.version as u64));
        push_plain(properties, "flags", flags_string(self.flags));
        push_plain(properties, "entry_count", u64_to_string(self.offsets.len() as u64));
        let ghost head = property_views(properties@);
        assert(head =~= property_views(old(properties)@) + seq![
            plain("version"@, decimal(self.version as nat)),
            plain("flags"@, flags_text(self.flags)),
            plain("entry_count"@, decimal(self.offsets.len() as nat)),
        ]);
        let shown: usize = if self.offsets.len() > 5 { 5 } else { self.offsets.len() };
        let mut i: usize = 0;
        while i < shown
            invariant
                i <= shown <= self.offsets.len(),
                property_views(properties@) == head + listed(i as nat, self@.each_entry()),
            decreases shown - i,
        {
            let ghost before = property_views(properties@);
            push_plain(
                properties,
                indexed_string("offset[", i, "]").as_str(),
                prefixed_hex_string("0x", self.offsets[i], 1),
            );
            proof {
                assert(property_views(properties@) =~= before + self@.entry_properties(i as int));
                assert(listed((i + 1) as nat, self@.each_entry()) == listed(i as nat, self@.each_entry())
                    + self@.entry_properties(i as int));
                assert(property_views(properties@) =~= head + listed((i + 1) as nat, self@.each_entry()));
            }
            i = i + 1;
        }
        push_remainder(properties, self.offsets.len(), " more");
        assert(property_views(properties@) =~= property_views(old(properties)@) + self@.properties());
    }
}

} // verus!
