//! The `stts` box: runs of samples that last equally long.

use crate::analyzer::{
    capped_len, flags_string, flags_text, indexed, indexed_string, listed, listed_len, plain,
    property_views, push_plain, push_remainder, remainder, shown_count, Property, PropertyView,
};
use crate::encoding::{
    holds, holds_both, holds_row, reads_back_u24, reads_back_u32, reads_back_u8, rows_bytes,
    u24_bytes, u32_bytes,
};
use crate::reader::{be_u24, be_u32, readable, u8_at};
use crate::text::{decimal, u64_to_string};
use vstd::prelude::*;

verus! {

/// The decoded fields of an `stts` box.
#[derive(Debug)]
pub struct TimeToSampleBox {
    version: u8,
    flags: u32,
    entries: Vec<TimeToSampleEntry>,
}

/// A run: how many samples follow one another, and how long each lasts.
#[derive(Debug, Clone, Copy, PartialEq, Eq, Structural)]
pub struct TimeToSampleEntry {
    pub sample_count: u32,
    pub sample_delta: u32,
}

/// Mathematical value of a [`TimeToSampleBox`].
pub struct TimeToSampleView {
    pub version: u8,
    pub flags: u32,
    pub entries: Seq<TimeToSampleEntry>,
}

impl View for TimeToSampleBox {
    type V = TimeToSampleView;

    closed spec fn view(&self) -> TimeToSampleView {
        TimeToSampleView { version: self.version, flags: self.flags, entries: self.entries@ }
    }
}

impl TimeToSampleView {
    /// The entry with index `i` of the box whose payload begins at `at`.
    pub open spec fn entry_at(data: Seq<u8>, at: int, i: int) -> TimeToSampleEntry {
        TimeToSampleEntry {
            sample_count: be_u32(data, at + 8 + 8 * i),
            sample_delta: be_u32(data, at + 12 + 8 * i),
        }
    }

    /// The box read from a payload of `size` bytes at offset `at`: version,
    /// flags, the number of entries, and the entries of eight bytes each.
    pub open spec fn decode(data: Seq<u8>, at: int, size: int) -> Option<TimeToSampleView> {
        let count = be_u32(data, at + 4);
        if readable(data, at, 8) && size >= 8 + 8 * count && readable(data, at, 8 + 8 * count) {
            Some(
                TimeToSampleView {
                    version: u8_at(data, at),
                    flags: be_u24(data, at + 1),
                    entries: Seq::new(count as nat, |i: int| Self::entry_at(data, at, i)),
                },
            )
        } else {
            None
        }
    }

    /// Whether the box can be written down: its flags fit in 24 bits and the
    /// number of its entries in 32.
    pub open spec fn encodable(self) -> bool {
        self.flags < 0x100_0000 && self.entries.len() <= u32::MAX
    }

    /// The eight bytes of an entry.
    pub open spec fn entry_bytes(e: TimeToSampleEntry) -> Seq<u8> {
        u32_bytes(e.sample_count) + u32_bytes(e.sample_delta)
    }

    /// The bytes of the row at an index, as a function of the index.
    pub open spec fn each_row(self) -> spec_fn(int) -> Seq<u8> {
        |i: int| Self::entry_bytes(self.entries[i])
    }

    /// The payload that holds the box: version, flags, the number of entries,
    /// and the entries.
    pub open spec fn encode(self) -> Seq<u8> {
        seq![self.version] + u24_bytes(self.flags) + u32_bytes(self.entries.len() as u32) + rows_bytes(
            self.entries.len(),
            8,
            self.each_row(),
        )
    }

    /// Decoding the bytes that a box was written down as gives the box back.
    pub proof fn decode_inverts_encode(self, data: Seq<u8>, at: int)
        requires
            self.encodable(),
            holds(data, at, self.encode()),
        ensures
            Self::decode(data, at, self.encode().len() as int) == Some(self),
    {
        let count = self.entries.len();
        let rows = rows_bytes(count, 8, self.each_row());
        let h0 = seq![self.version];
        let h1 = h0 + u24_bytes(self.flags);
        let h2 = h1 + u32_bytes(count as u32);
        holds_both(data, at, h2, rows);
        holds_both(data, at, h1, u32_bytes(count as u32));
        holds_both(data, at, h0, u24_bytes(self.flags));
        reads_back_u8(data, at, self.version);
        reads_back_u24(data, at + 1, self.flags);
        reads_back_u32(data, at + 4, count as u32);
        assert forall|i: int| 0 <= i < count implies Self::entry_at(data, at, i) == self.entries[i] by {
            let e = self.entries[i];
            holds_row(data, at + 8, count, 8, self.each_row(), i);
            holds_both(data, at + 8 + 8 * i, u32_bytes(e.sample_count), u32_bytes(e.sample_delta));
            reads_back_u32(data, at + 8 + 8 * i, e.sample_count);
            reads_back_u32(data, at + 12 + 8 * i, e.sample_delta);
        }
        let got = Self::decode(data, at, self.encode().len() as int);
        assert(got is Some);
        assert(got->0.entries =~= self.entries);
    }

    /// The two properties of the entry with index `i`.
    pub open spec fn entry_properties(self, i: int) -> Seq<PropertyView> {
        seq![
            plain(indexed("entry["@, i as nat, "].sample_count"@), decimal(self.entries[i].sample_count as nat)),
            plain(indexed("entry["@, i as nat, "].sample_delta"@), decimal(self.entries[i].sample_delta as nat)),
        ]
    }

    /// The properties of the entry at an index, as a function of the index.
    pub open spec fn each_entry(self) -> spec_fn(int) -> Seq<PropertyView> {
        |i: int| self.entry_properties(i)
    }

    /// Version, flags and the number of entries, then the first five entries
    /// and one property for the rest.
    pub open spec fn properties(self) -> Seq<PropertyView> {
        seq![
            plain("version"@, decimal(self.version as nat)),
            plain("flags"@, flags_text(self.flags)),
            plain("entry_count"@, decimal(self.entries.len())),
        ] + listed(shown_count(self.entries.len()), self.each_entry()) + remainder(
            self.entries.len(),
            " more entries"@,
        )
    }

    /// The list of properties is short however long the list of entries
    /// is: 3 fixed properties, 2 for each of the first five entries,
    /// and one for the rest where there are more than five.
    pub proof fn properties_are_capped(self)
        ensures
            self.properties().len() == 3 + capped_len(self.entries.len(), 2),
    {
        listed_len(shown_count(self.entries.len()), self.each_entry(), 2);
    }
}

impl TimeToSampleBox {
    /// A box with the fields given.
    pub fn new(version: u8, flags: u32, entries: Vec<TimeToSampleEntry>) -> (b: TimeToSampleBox)
        ensures
            b@ == (TimeToSampleView { version, flags, entries: entries@ }),
    {
        TimeToSampleBox { version, flags, entries }
    }

    /// One line that says what kind of record this is.
    pub fn description(&self) -> (s: &'static str)
        ensures
            s@ == "Time To Sample Box"@,
    {
        "Time To Sample Box"
    }

    /// Appends the decoded fields to `properties`, in the order in which they are
    /// shown: the fixed ones, those of the first five entries, and one for the
    /// rest where there are more than five.
    pub fn fill_properties(&self, properties: &mut Vec<Property>)
        ensures
            property_views(final(properties)@) == property_views(old(properties)@) + self@.properties(),
            self@.properties().len() == 3 + capped_len(self@.entries.len(), 2),
    {
        proof {
            self@.properties_are_capped();
        }
        push_plain(properties, "version", u64_to_string(self.version as u64));
        push_plain(properties, "flags", flags_string(self.flags));
        push_plain(properties, "entry_count", u64_to_string(self.entries.len() as u64));
        let ghost head = property_views(properties@);
        assert(head =~= property_views(old(properties)@) + seq![
            plain("version"@, decimal(self.version as nat)),
            plain("flags"@, flags_text(self.flags)),
            plain("entry_count"@, decimal(self.entries.len() as nat)),
        ]);
        let shown: usize = if self.entries.len() > 5 { 5 } else { self.entries.len() };
        let mut i: usize = 0;
        while i < shown
            invariant
                i <= shown <= self.entries.len(),
                property_views(properties@) == head + listed(i as nat, self@.each_entry()),
            decreases shown - i,
        {
            let ghost before = property_views(properties@);
            let entry = &self.entries[i];
            push_plain(
                properties,
                indexed_string("entry[", i, "].sample_count").as_str(),
                u64_to_string(entry.sample_count as u64),
            );
            push_plain(
                properties,
                indexed_string("entry[", i, "].sample_delta").as_str(),
                u64_to_string(entry.sample_delta as u64),
            );
            proof {
                assert(property_views(properties@) =~= before + self@.entry_properties(i as int));
                assert(listed((i + 1) as nat, self@.each_entry()) == listed(i as nat, self@.each_entry())
                    + self@.entry_properties(i as int));
                assert(property_views(properties@) =~= head + listed((i + 1) as nat, self@.each_entry()));
            }
            i = i + 1;
        }
        push_remainder(properties, self.entries.len(), " more entries");
        assert(property_views(properties@) =~= property_views(old(properties)@) + self@.properties());
    }
}

impl TimeToSampleEntry {
    /// An entry with the fields given.
    pub fn new(sample_count: u32, sample_delta: u32) -> (e: TimeToSampleEntry)
        ensures
            e == (TimeToSampleEntry { sample_count, sample_delta }),
    {
        TimeToSampleEntry { sample_count, sample_delta }
    }
}

} // verus!
