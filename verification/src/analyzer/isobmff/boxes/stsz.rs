//! The `stsz` box: the size of every sample, or one size for them all.

use crate::analyzer::{
    capped_len, flags_string, flags_text, indexed, indexed_string, listed, listed_len, plain,
    property_views, push_plain, push_remainder, remainder, shown_count, Property, PropertyView,
};
use crate::encoding::{
    holds, holds_both, holds_row, reads_back_u24, reads_back_u32, reads_back_u8, rows_bytes,
    u24_bytes, u32_bytes,
};
use crate::reader::{be_u24, be_u32, readable, u8_at};
use crate::text::{decimal, u64_to_string};
use vstd::prelude::*;

verus! {

/// The decoded fields of an `stsz` box.
#[derive(Debug)]
pub struct SampleSizeBox {
    version: u8,
    flags: u32,
    sample_size: u32,
    sample_count: u32,
    entry_sizes: Vec<u32>,
}

/// Mathematical value of a [`SampleSizeBox`].
pub struct SampleSizeView {
    pub version: u8,
    pub flags: u32,
    pub sample_size: u32,
    pub sample_count: u32,
    pub entry_sizes: Seq<u32>,
}

impl View for SampleSizeBox {
    type V = SampleSizeView;

    closed spec fn view(&self) -> SampleSizeView {
        SampleSizeView {
            version: self.version,
            flags: self.flags,
            sample_size: self.sample_size,
            sample_count: self.sample_count,
            entry_sizes: self.entry_sizes@,
        }
    }
}

impl SampleSizeView {
    /// How many sizes follow the fixed fields: one for each sample where the
    /// common size is zero, none otherwise.
    pub open spec fn listed_sizes(sample_size: u32, sample_count: u32) -> int {
        if sample_size == 0 {
            sample_count as int
        } else {
            0
        }
    }

    /// The box read from a payload of `size` bytes at offset `at`: version,
    /// flags, the common size, the number of samples, and the sizes listed.
    pub open spec fn decode(data: Seq<u8>, at: int, size: int) -> Option<SampleSizeView> {
        let sample_size = be_u32(data, at + 4);
        let sample_count = be_u32(data, at + 8);
        let listed = Self::listed_sizes(sample_size, sample_count);
        if readable(data, at, 12) && size >= 12 + 4 * listed && readable(data, at, 12 + 4 * listed) {
            Some(
                SampleSizeView {
                    version: u8_at(data, at),
                    flags: be_u24(data, at + 1),
                    sample_size,
                    sample_count,
                    entry_sizes: Seq::new(listed as nat, |i: int| be_u32(data, at + 12 + 4 * i)),
                },
            )
        } else {
            None
        }
    }

    /// Whether the box can be written down: its flags fit in 24 bits, and it
    /// lists a size for each sample where the common size is zero and none
    /// otherwise.
    pub open spec fn encodable(self) -> bool {
        self.flags < 0x100_0000 && self.entry_sizes.len() == Self::listed_sizes(
            self.sample_size,
            self.sample_count,
        )
    }

    /// The bytes of the row at an index, as a function of the index.
    pub open spec fn each_row(self) -> spec_fn(int) -> Seq<u8> {
        |i: int| u32_bytes(self.entry_sizes[i])
    }

    /// The payload that holds the box: version, flags, the common size, the
    /// number of samples, and the sizes listed.
    pub open spec fn encode(self) -> Seq<u8> {
        seq![self.version] + u24_bytes(self.flags) + u32_bytes(self.sample_size) + u32_bytes(
            self.sample_count,
        ) + rows_bytes(self.entry_sizes.len(), 4, self.each_row())
    }

    /// Decoding the bytes that a box was written down as gives the box back.
    pub proof fn decode_inverts_encode(self, data: Seq<u8>, at: int)
        requires
            self.encodable(),
            holds(data, at, self.encode()),
        ensures
            Self::decode(data, at, self.encode().len() as int) == Some(self),
    {
        let count = self.entry_sizes.len();
        let rows = rows_bytes(count, 4, self.each_row());
        let h0 = seq![self.version];
        let h1 = h0 + u24_bytes(self.flags);
        let h2 = h1 + u32_bytes(self.sample_size);
        let h3 = h2 + u32_bytes(self.sample_count);
        holds_both(data, at, h3, rows);
        holds_both(data, at, h2, u32_bytes(self.sample_count));
        holds_both(data, at, h1, u32_bytes(self.sample_size));
        holds_both(data, at, h0, u24_bytes(self.flags));
        reads_back_u8(data, at, self.version);
        reads_back_u24(data, at + 1, self.flags);
        reads_back_u32(data, at + 4, self.sample_size);
        reads_back_u32(data, at + 8, self.sample_count);
        assert forall|i: int| 0 <= i < count implies be_u32(data, at + 12 + 4 * i) == self.entry_sizes[i] by {
            holds_row(data, at + 12, count, 4, self.each_row(), i);
            reads_back_u32(data, at + 12 + 4 * i, self.entry_sizes[i]);
        }
        let got = Self::decode(data, at, self.encode().len() as int);
        assert(got is Some);
        assert(got->0.entry_sizes =~= self.entry_sizes);
    }

    /// The property of the size with index `i`.
    pub open spec fn entry_properties(self, i: int) -> Seq<PropertyView> {
        seq![plain(indexed("entry_size["@, i as nat, "]"@), decimal(self.entry_sizes[i] as nat))]
    }

    /// The properties of the size at an index, as a function of the index.
    pub open spec fn each_entry(self) -> spec_fn(int) -> Seq<PropertyView> {
        |i: int| self.entry_properties(i)
    }

    /// The properties of the sizes listed: none where the samples have a
    /// common size; else the first five sizes and one property for the rest.
    pub open spec fn size_properties(self) -> Seq<PropertyView> {
        if self.sample_size == 0 {
            listed(shown_count(self.entry_sizes.len()), self.each_entry()) + remainder(
                self.entry_sizes.len(),
                " more"@,
            )
        } else {
            Seq::empty()
        }
    }

    /// Version, flags, the common size and the number of samples, then the
    /// sizes listed.
    pub open spec fn properties(self) -> Seq<PropertyView> {
        seq![
            plain("version"@, decimal(self.version as nat)),
            plain("flags"@, flags_text(self.flags)),
            plain("sample_size"@, decimal(self.sample_size as nat)),
            plain("sample_count"@, decimal(self.sample_count as nat)),
        ] + self.size_properties()
    }

    /// The list of properties is short however long the list of sizes
    /// is: 4 fixed properties, 1 for each of the first five sizes,
    /// and one for the rest where there are more than five.
    pub proof fn properties_are_capped(self)
        ensures
            self.properties().len() == if self.sample_size == 0 {
                4 + capped_len(self.entry_sizes.len(), 1)
            } else {
                4
            },
    {
        listed_len(shown_count(self.entry_sizes.len()), self.each_entry(), 1);
    }

    /// A box decoded with a common size other than zero lists no sizes; one
    /// decoded with the common size zero lists as many as it counts samples.
    pub proof fn listed_sizes_follow_sample_size(data: Seq<u8>, at: int, size: int)
        ensures
            Self::decode(data, at, size) matches Some(b) ==> {
                &&& b.sample_size != 0 ==> b.entry_sizes.len() == 0
                &&& b.sample_size == 0 ==> b.entry_sizes.len() == b.sample_count
            },
    {
    }
}

impl SampleSizeBox {
    /// A box with the fields given.
    pub fn new(version: u8, flags: u32, sample_size: u32, sample_count: u32, entry_sizes: Vec<u32>) -> (b:
        SampleSizeBox)
        ensures
            b@ == (SampleSizeView { version, flags, sample_size, sample_count, entry_sizes: entry_sizes@ }),
    {
        SampleSizeBox { version, flags, sample_size, sample_count, entry_sizes }
    }

    /// One line that says what kind of record this is.
    pub fn description(&self) -> (s: &'static str)
        ensures
            s@ == "Sample Size Box"@,
    {
        "Sample Size Box"
    }

    /// Appends the decoded fields to `properties`, in the order in which they are
    /// shown: the fixed ones, those of the first five entries, and one for the
    /// rest where there are more than five.
    pub fn fill_properties(&self, properties: &mut Vec<Property>)
        ensures
            property_views(final(properties)@) == property_views(old(properties)@) + self@.properties(),
            self@.properties().len() == if self@.sample_size == 0 {
                4 + capped_len(self@.entry_sizes.len(), 1)
            } else {
                4
            },
    {
        proof {
            self@.properties_are_capped();
        }
        push_plain(properties, "version", u64_to_string(self.version as u64));
        push_plain(properties, "flags", flags_string(self.flags));
        push_plain(properties, "sample_size", u64_to_string(self.sample_size as u64));
        push_plain(properties, "sample_count", u64_to_string(self.sample_count as u64));
        let ghost head = property_views(properties@);
        assert(head =~= property_views(old(properties)@) + seq![
            plain("version"@, decimal(self.version as nat)),
            plain("flags"@, flags_text(self.flags)),
            plain("sample_size"@, decimal(self.sample_size as nat)),
            plain("sample_count"@, decimal(self.sample_count as nat)),
        ]);
        if self.sample_size == 0 {
            let shown: usize = if self.entry_sizes.len() > 5 { 5 } else { self.entry_sizes.len() };
            let mut i: usize = 0;
            while i < shown
                invariant
                    i <= shown <= self.entry_sizes.len(),
                    property_views(properties@) == head + listed(i as nat, self@.each_entry()),
                decreases shown - i,
            {
                let ghost before = property_views(properties@);
                push_plain(
                    properties,
                    indexed_string("entry_size[", i, "]").as_str(),
                    u64_to_string(self.entry_sizes[i] as u64),
                );
                proof {
                    assert(property_views(properties@) =~= before + self@.entry_properties(i as int));
                    assert(listed((i + 1) as nat, self@.each_entry()) == listed(i as nat, self@.each_entry())
                        + self@.entry_properties(i as int));
                    assert(property_views(properties@) =~= head + listed((i + 1) as nat, self@.each_entry()));
                }
                i = i + 1;
            }
            push_remainder(properties, self.entry_sizes.len(), " more");
        }
        assert(property_views(properties@) =~= property_views(old(properties)@) + self@.properties());
    }
}

} // verus!
