//! The `elst` box: the edits that map the media onto the presentation.

use crate::analyzer::{
    capped_len, flags_string, flags_text, indexed, indexed_string, listed, listed_len, plain,
    property_views, push_plain, push_remainder, remainder, shown_count, Property, PropertyView,
};
use crate::encoding::{
    holds, holds_both, holds_row, reads_back_i16, reads_back_i32, reads_back_i64, reads_back_u24,
    reads_back_u32, reads_back_u64, reads_back_u8, rows_bytes, u16_bytes, u24_bytes, u32_bytes,
    u64_bytes, unsigned16, unsigned32, unsigned64,
};
use crate::reader::{be_i16, be_i32, be_i64, be_u24, be_u32, be_u64, readable, u8_at};
use crate::text::{concat3, decimal, i64_to_string, signed_decimal, u64_to_string};
use vstd::arithmetic::mul::lemma_mul_is_commutative;
use vstd::prelude::*;

verus! {

/// An edit: how long it lasts, where in the media it begins, and at which
/// rate the media plays.
#[derive(Debug, Clone, Copy, PartialEq, Eq, Structural)]
pub struct EditListEntry {
    pub segment_duration: u64,
    pub media_time: i64,
    pub media_rate: i16,
    pub media_rate_fraction: i16,
}

impl EditListEntry {
    /// An entry with the fields given.
    pub fn new(segment_duration: u64, media_time: i64, media_rate: i16, media_rate_fraction: i16) -> (e:
        EditListEntry)
        ensures
            e == (EditListEntry { segment_duration, media_time, media_rate, media_rate_fraction }),
    {
        EditListEntry { segment_duration, media_time, media_rate, media_rate_fraction }
    }
}

/// The decoded fields of an `elst` box.
#[derive(Debug)]
pub struct EditListBox {
    version: u8,
    flags: u32,
    entries: Vec<EditListEntry>,
}

/// Mathematical value of an [`EditListBox`].
pub struct EditListView {
    pub version: u8,
    pub flags: u32,
    pub entries: Seq<EditListEntry>,
}

impl View for EditListBox {
    type V = EditListView;

    closed spec fn view(&self) -> EditListView {
        EditListView { version: self.version, flags: self.flags, entries: self.entries@ }
    }
}

impl EditListView {
    /// Length of one entry: 64-bit duration and time in version 1, 32-bit
    /// ones otherwise, then the rate in two 16-bit halves.
    pub open spec fn entry_len(version: u8) -> int {
        if version == 1 {
            20
        } else {
            12
        }
    }

    /// The entry with index `i` of the box of version `version` whose payload
    /// begins at `at`.
    pub open spec fn entry_at(data: Seq<u8>, at: int, version: u8, i: int) -> EditListEntry {
        let e = at + 8 + Self::entry_len(version) * i;
        if version == 1 {
            EditListEntry {
                segment_duration: be_u64(data, e),
                media_time: be_i64(data, e + 8),
                media_rate: be_i16(data, e + 16),
                media_rate_fraction: be_i16(data, e + 18),
            }
        } else {
            EditListEntry {
                segment_duration: be_u32(data, e) as u64,
                media_time: be_i32(data, e + 4) as i64,
                media_rate: be_i16(data, e + 8),
                media_rate_fraction: be_i16(data, e + 10),
            }
        }
    }

    /// The box read from a payload of `size` bytes at offset `at`: version,
    /// flags, the number of entries, and the entries.
    pub open spec fn decode(data: Seq<u8>, at: int, size: int) -> Option<EditListView> {
        let version = u8_at(data, at);
        let count = be_u32(data, at + 4);
        let need = 8 + Self::entry_len(version) * count;
        if readable(data, at, 8) && size >= need && readable(data, at, need) {
            Some(
                EditListView {
                    version,
                    flags: be_u24(data, at + 1),
                    entries: Seq::new(count as nat, |i: int| Self::entry_at(data, at, version, i)),
                },
            )
        } else {
            None
        }
    }

    /// Whether the box can be written down: its version is 0 or 1, its flags
    /// fit in 24 bits, the number of its entries in 32, and in version 0 every
    /// duration and time in 32 bits.
    pub open spec fn encodable(self) -> bool {
        &&& self.version == 0 || self.version == 1
        &&& self.flags < 0x100_0000
        &&& self.entries.len() <= u32::MAX
        &&& self.version == 0 ==> forall|i: int|
            0 <= i < self.entries.len() ==> (#[trigger] self.entries[i]).segment_duration <= u32::MAX
                && i32::MIN <= self.entries[i].media_time <= i32::MAX
    }

    /// The bytes of an entry in a box of version `version`.
    pub open spec fn entry_bytes(version: u8, e: EditListEntry) -> Seq<u8> {
        if version == 1 {
            u64_bytes(e.segment_duration) + u64_bytes(unsigned64(e.media_time)) + u16_bytes(
                unsigned16(e.media_rate),
            ) + u16_bytes(unsigned16(e.media_rate_fraction))
        } else {
            u32_bytes(e.segment_duration as u32) + u32_bytes(unsigned32(e.media_time as i32)) + u16_bytes(
                unsigned16(e.media_rate),
            ) + u16_bytes(unsigned16(e.media_rate_fraction))
        }
    }

    /// The bytes of the row at an index, as a function of the index.
    pub open spec fn each_row(self) -> spec_fn(int) -> Seq<u8> {
        |i: int| Self::entry_bytes(self.version, self.entries[i])
    }

    /// The payload that holds the box: version, flags, the number of entries,
    /// and the entries.
    pub open spec fn encode(self) -> Seq<u8> {
        seq![self.version] + u24_bytes(self.flags) + u32_bytes(self.entries.len() as u32) + rows_bytes(
            self.entries.len(),
            Self::entry_len(self.version) as nat,
            self.each_row(),
        )
    }

    /// An entry that stands in `data` is read back.
    proof fn entry_reads_back(self, data: Seq<u8>, at: int, i: int)
        requires
            self.encodable(),
            0 <= i < self.entries.len(),
            holds(data, at + 8 + Self::entry_len(self.version) * i, Self::entry_bytes(self.version, self.entries[i])),
        ensures
            Self::entry_at(data, at, self.version, i) == self.entries[i],
    {
        let e = self.entries[i];
        let start = at + 8 + Self::entry_len(self.version) * i;
        let rate = u16_bytes(unsigned16(e.media_rate));
        let fraction = u16_bytes(unsigned16(e.media_rate_fraction));
        if self.version == 1 {
            let a = u64_bytes(e.segment_duration);
            let b = u64_bytes(unsigned64(e.media_time));
            holds_both(data, start, a + b + rate, fraction);
            holds_both(data, start, a + b, rate);
            holds_both(data, start, a, b);
            reads_back_u64(data, start, e.segment_duration);
            reads_back_i64(data, start + 8, e.media_time);
            reads_back_i16(data, start + 16, e.media_rate);
            reads_back_i16(data, start + 18, e.media_rate_fraction);
        } else {
            let a = u32_bytes(e.segment_duration as u32);
            let b = u32_bytes(unsigned32(e.media_time as i32));
            holds_both(data, start, a + b + rate, fraction);
            holds_both(data, start, a + b, rate);
            holds_both(data, start, a, b);
            reads_back_u32(data, start, e.segment_duration as u32);
            reads_back_i32(data, start + 4, e.media_time as i32);
            reads_back_i16(data, start + 8, e.media_rate);
            reads_back_i16(data, start + 10, e.media_rate_fraction);
        }
    }

    /// Decoding the bytes that a box was written down as gives the box back.
    pub proof fn decode_inverts_encode(self, data: Seq<u8>, at: int)
        requires
            self.encodable(),
            holds(data, at, self.encode()),
        ensures
            Self::decode(data, at, self.encode().len() as int) == Some(self),
    {
        let count = self.entries.len();
        let stride = Self::entry_len(self.version) as nat;
        let rows = rows_bytes(count, stride, self.each_row());
        let h0 = seq![self.version];
        let h1 = h0 + u24_bytes(self.flags);
        let h2 = h1 + u32_bytes(count as u32);
        holds_both(data, at, h2, rows);
        holds_both(data, at, h1, u32_bytes(count as u32));
        holds_both(data, at, h0, u24_bytes(self.flags));
        reads_back_u8(data, at, self.version);
        reads_back_u24(data, at + 1, self.flags);
        reads_back_u32(data, at + 4, count as u32);
        assert forall|i: int| 0 <= i < count implies Self::entry_at(data, at, self.version, i)
            == self.entries[i] by {
            holds_row(data, at + 8, count, stride, self.each_row(), i);
            self.entry_reads_back(data, at, i);
        }
        lemma_mul_is_commutative(count as int, stride as int);
        assert(rows.len() == count * stride);
        let got = Self::decode(data, at, self.encode().len() as int);
        assert(got is Some);
        assert(got->0.entries =~= self.entries);
    }

    /// In a box of version 1 every entry has a 64-bit duration and a 64-bit
    /// time and is twenty bytes long; in a box of version 0 both are 32-bit
    /// numbers and an entry is twelve bytes long.
    pub proof fn version_selects_width(data: Seq<u8>, at: int, size: int, i: int)
        requires
            Self::decode(data, at, size) is Some,
            0 <= i < Self::decode(data, at, size)->0.entries.len(),
        ensures
            ({
                let b = Self::decode(data, at, size)->0;
                &&& b.version == u8_at(data, at)
                &&& b.entries.len() == be_u32(data, at + 4)
                &&& b.version == 1 ==> {
                    &&& b.entries[i].segment_duration == be_u64(data, at + 8 + 20 * i)
                    &&& b.entries[i].media_time == be_i64(data, at + 16 + 20 * i)
                    &&& b.entries[i].media_rate == be_i16(data, at + 24 + 20 * i)
                    &&& size >= 8 + 20 * b.entries.len()
                }
                &&& b.version == 0 ==> {
                    &&& b.entries[i].segment_duration == be_u32(data, at + 8 + 12 * i)
                    &&& b.entries[i].media_time == be_i32(data, at + 12 + 12 * i)
                    &&& b.entries[i].media_rate == be_i16(data, at + 16 + 12 * i)
                    &&& size >= 8 + 12 * b.entries.len()
                }
            }),
    {
    }

    /// The three properties of the entry with index `i`.
    pub open spec fn entry_properties(self, i: int) -> Seq<PropertyView> {
        seq![
            plain(indexed("entry["@, i as nat, "].duration"@), decimal(self.entries[i].segment_duration as nat)),
            plain(indexed("entry["@, i as nat, "].media_time"@), signed_decimal(self.entries[i].media_time as int)),
            plain(
                indexed("entry["@, i as nat, "].media_rate"@),
                signed_decimal(self.entries[i].media_rate as int) + "."@ + signed_decimal(
                    self.entries[i].media_rate_fraction as int,
                ),
            ),
        ]
    }

    /// The properties of the entry at an index, as a function of the index.
    pub open spec fn each_entry(self) -> spec_fn(int) -> Seq<PropertyView> {
        |i: int| self.entry_properties(i)
    }

    /// Version, flags and the number of entries, then the first five entries
    /// and one property for the rest.
    pub open spec fn properties(self) -> Seq<PropertyView> {
        seq![
            plain("version"@, decimal(self.version as nat)),
            plain("flags"@, flags_text(self.flags)),
            plain("entry_count"@, decimal(self.entries.len())),
        ] + listed(shown_count(self.entries.len()), self.each_entry()) + remainder(
            self.entries.len(),
            " more entries"@,
        )
    }

    /// The list of properties is short however long the list of entries
    /// is: 3 fixed properties, 3 for each of the first five entries,
    /// and one for the rest where there are more than five.
    pub proof fn properties_are_capped(self)
        ensures
            self.properties().len() == 3 + capped_len(self.entries.len(), 3),
    {
        listed_len(shown_count(self.entries.len()), self.each_entry(), 3);
    }
}

impl EditListBox {
    /// A box with the fields given.
    pub fn new(version: u8, flags: u32, entries: Vec<EditListEntry>) -> (b: EditListBox)
        ensures
            b@ == (EditListView { version, flags, entries: entries@ }),
    {
        EditListBox { version, flags, entries }
    }

    /// One line that says what kind of record this is.
    pub fn description(&self) -> (s: &'static str)
        ensures
            s@ == "Edit List Box"@,
    {
        "Edit List Box"
    }

    /// Appends the decoded fields to `properties`, in the order in which they are
    /// shown: the fixed ones, those of the first five entries, and one for the
    /// rest where there are more than five.
    pub fn fill_properties(&self, properties: &mut Vec<Property>)
        ensures
            property_views(final(properties)@) == property_views(old(properties)@) + self@.properties(),
            self@.properties().len() == 3 + capped_len(self@.entries.len(), 3),
    {
        proof {
            self@.properties_are_capped();
        }
        push_plain(properties, "version", u64_to_string(self.version as u64));
        push_plain(properties, "flags", flags_string(self.flags));
        push_plain(properties, "entry_count", u64_to_string(self.entries.len() as u64));
        let ghost head = property_views(properties@);
        assert(head =~= property_views(old(properties)@) + seq![
            plain("version"@, decimal(self.version as nat)),
            plain("flags"@, flags_text(self.flags)),
            plain("entry_count"@, decimal(self.entries.len() as nat)),
        ]);
        let shown: usize = if self.entries.len() > 5 { 5 } else { self.entries.len() };
        let mut i: usize = 0;
        while i < shown
            invariant
                i <= shown <= self.entries.len(),
                property_views(properties@) == head + listed(i as nat, self@.each_entry()),
            decreases shown - i,
        {
            let ghost before = property_views(properties@);
            let entry = &self.entries[i];
            push_plain(
                properties,
                indexed_string("entry[", i, "].duration").as_str(),
                u64_to_string(entry.segment_duration),
            );
            push_plain(
                properties,
                indexed_string("entry[", i, "].media_time").as_str(),
                i64_to_string(entry.media_time),
            );
            let rate = i64_to_string(entry.media_rate as i64);
            let fraction = i64_to_string(entry.media_rate_fraction as i64);
            push_plain(
                properties,
                indexed_string("entry[", i, "].media_rate").as_str(),
                concat3(rate.as_str(), ".", fraction.as_str()),
            );
            proof {
                assert(property_views(properties@) =~= before + self@.entry_properties(i as int));
                assert(listed((i + 1) as nat, self@.each_entry()) == listed(i as nat, self@.each_entry())
                    + self@.entry_properties(i as int));
                assert(property_views(properties@) =~= head + listed((i + 1) as nat, self@.each_entry()));
            }
            i = i + 1;
        }
        push_remainder(properties, self.entries.len(), " more entries");
        assert(property_views(properties@) =~= property_views(old(properties)@) + self@.properties());
    }
}

} // verus!
