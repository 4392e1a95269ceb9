//! The `stsd` box: the sample descriptions of a track.  Of each description
//! only the type, the data reference and the raw bytes are kept.

use crate::analyzer::{
    capped_len, flags_string, flags_text, indexed, indexed_string, listed, listed_len, plain,
    property_views, push_plain, push_remainder, remainder, shown_count, Property, PropertyView,
};
use crate::encoding::{
    holds, holds_both, reads_back_text, reads_back_u16, reads_back_u24, reads_back_u32,
    reads_back_u8, u16_bytes, u24_bytes, u32_bytes, zero_bytes,
};
use crate::reader::{be_u16, be_u24, be_u32, bytes_at, readable, u8_at};
use crate::text::{decimal, u64_to_string, lossy_text};
use vstd::prelude::*;
use vstd::string::StringExecFns;
use vstd::utf8::encode_utf8;

verus! {

/// The decoded fields of an `stsd` box.
#[derive(Debug)]
pub struct SampleDescriptionBox {
    version: u8,
    flags: u32,
    entry_count: u32,
    entries: Vec<SampleEntry>,
}

/// One sample description: its type, the data reference it uses and its
/// undecoded bytes.
#[derive(Debug)]
pub struct SampleEntry {
    entry_type: String,
    data_reference_index: u16,
    data: Vec<u8>,
}

/// Mathematical value of a [`SampleEntry`].
pub struct SampleEntryView {
    pub entry_type: Seq<char>,
    pub data_reference_index: u16,
    pub data: Seq<u8>,
}

/// Mathematical value of a [`SampleDescriptionBox`].
pub struct SampleDescriptionView {
    pub version: u8,
    pub flags: u32,
    pub entry_count: u32,
    pub entries: Seq<SampleEntryView>,
}

impl View for SampleEntry {
    type V = SampleEntryView;

    closed spec fn view(&self) -> SampleEntryView {
        SampleEntryView {
            entry_type: self.entry_type@,
            data_reference_index: self.data_reference_index,
            data: self.data@,
        }
    }
}

/// The views of a list of sample descriptions.
pub open spec fn sample_entry_views(items: Seq<SampleEntry>) -> Seq<SampleEntryView> {
    Seq::new(items.len(), |i: int| items[i]@)
}

impl View for SampleDescriptionBox {
    type V = SampleDescriptionView;

    closed spec fn view(&self) -> SampleDescriptionView {
        SampleDescriptionView {
            version: self.version,
            flags: self.flags,
            entry_count: self.entry_count,
            entries: sample_entry_views(self.entries@),
        }
    }
}

impl SampleEntryView {
    /// The description at offset `at` and the offset after it, where it ends
    /// at or before `end`: its size with the sixteen bytes of its header
    /// counted in, its type, six bytes passed over, the data reference, and
    /// its bytes.
    pub open spec fn decode(data: Seq<u8>, at: int, end: int) -> Option<(SampleEntryView, int)> {
        let entry_size = be_u32(data, at);
        if readable(data, at, 8) && entry_size >= 16 && at + entry_size <= end && readable(
            data,
            at + 14,
            2,
        ) && readable(data, at + 16, entry_size - 16) {
            Some(
                (
                    SampleEntryView {
                        entry_type: lossy_text(bytes_at(data, at + 4, 4)),
                        data_reference_index: be_u16(data, at + 14),
                        data: bytes_at(data, at + 16, entry_size - 16),
                    },
                    at + entry_size,
                ),
            )
        } else {
            None
        }
    }

    /// Whether the description can be written down: its type takes four
    /// bytes in UTF-8 and its size fits in 32 bits.
    pub open spec fn encodable(self) -> bool {
        encode_utf8(self.entry_type).len() == 4 && 16 + self.data.len() <= u32::MAX
    }

    /// The bytes that hold the description: its size, its type, six zero
    /// bytes, the data reference, and its bytes.
    pub open spec fn encode(self) -> Seq<u8> {
        u32_bytes((16 + self.data.len()) as u32) + encode_utf8(self.entry_type) + zero_bytes(6) + u16_bytes(
            self.data_reference_index,
        ) + self.data
    }

    /// Decoding the bytes that a description was written down as gives the
    /// description back, and the offset after it.
    pub proof fn decode_inverts_encode(self, data: Seq<u8>, at: int, end: int)
        requires
            self.encodable(),
            holds(data, at, self.encode()),
            at + self.encode().len() <= end,
        ensures
            self.encode().len() == 16 + self.data.len(),
            Self::decode(data, at, end) == Some((self, at + self.encode().len())),
    {
        let size = (16 + self.data.len()) as u32;
        let h0 = u32_bytes(size);
        let h1 = h0 + encode_utf8(self.entry_type);
        let h2 = h1 + zero_bytes(6);
        let h3 = h2 + u16_bytes(self.data_reference_index);
        holds_both(data, at, h3, self.data);
        holds_both(data, at, h2, u16_bytes(self.data_reference_index));
        holds_both(data, at, h1, zero_bytes(6));
        holds_both(data, at, h0, encode_utf8(self.entry_type));
        reads_back_u32(data, at, size);
        reads_back_text(data, at + 4, self.entry_type);
        reads_back_u16(data, at + 14, self.data_reference_index);
        let got = Self::decode(data, at, end);
        assert(got is Some);
        let (entry, after) = got->0;
        assert(entry.data =~= self.data);
    }

    /// The descriptions written down one after another.
    pub open spec fn encode_many(entries: Seq<SampleEntryView>) -> Seq<u8>
        decreases entries.len(),
    {
        if entries.len() == 0 {
            Seq::empty()
        } else {
            Self::encode_many(entries.drop_last()) + entries.last().encode()
        }
    }

    /// Decoding the bytes that descriptions were written down as gives the
    /// descriptions back, and the offset after them.
    pub proof fn decode_many_inverts_encode_many(entries: Seq<SampleEntryView>, data: Seq<u8>, at: int, end: int)
        requires
            forall|i: int| 0 <= i < entries.len() ==> (#[trigger] entries[i]).encodable(),
            holds(data, at, Self::encode_many(entries)),
            at + Self::encode_many(entries).len() <= end,
        ensures
            Self::decode_many(data, at, end, entries.len()) == Some(
                (entries, at + Self::encode_many(entries).len()),
            ),
        decreases entries.len(),
    {
        if entries.len() == 0 {
            assert(entries =~= Seq::empty());
        } else {
            let front = entries.drop_last();
            let last = entries.last();
            holds_both(data, at, Self::encode_many(front), last.encode());
            assert forall|i: int| 0 <= i < front.len() implies (#[trigger] front[i]).encodable() by {
                assert(front[i] == entries[i]);
            }
            Self::decode_many_inverts_encode_many(front, data, at, end);
            last.decode_inverts_encode(data, at + Self::encode_many(front).len(), end);
            assert(front.push(last) =~= entries);
        }
    }

    /// The first `count` descriptions from offset `at` on, each ending at or
    /// before `end`, and the offset after the last of them.
    pub open spec fn decode_many(data: Seq<u8>, at: int, end: int, count: nat) -> Option<
        (Seq<SampleEntryView>, int),
    >
        decreases count,
    {
        if count == 0 {
            Some((Seq::empty(), at))
        } else {
            match Self::decode_many(data, at, end, (count - 1) as nat) {
                Some((entries, next)) => match Self::decode(data, next, end) {
                    Some((entry, after)) => Some((entries.push(entry), after)),
                    None => None,
                },
                None => None,
            }
        }
    }

    /// Where fewer descriptions cannot be decoded, more cannot either.
    pub proof fn decode_many_fails_on(data: Seq<u8>, at: int, end: int, fewer: nat, more: nat)
        requires
            fewer <= more,
            Self::decode_many(data, at, end, fewer) is None,
        ensures
            Self::decode_many(data, at, end, more) is None,
        decreases more,
    {
        if fewer < more {
            Self::decode_many_fails_on(data, at, end, fewer, (more - 1) as nat);
        }
    }
}

impl SampleDescriptionView {
    /// The box read from a payload of `size` bytes at offset `at`: version,
    /// flags, the number of descriptions, and the descriptions.
    pub open spec fn decode(data: Seq<u8>, at: int, size: int) -> Option<SampleDescriptionView> {
        let count = be_u32(data, at + 4);
        if readable(data, at, 8) && size >= 8 {
            match SampleEntryView::decode_many(data, at + 8, at + size, count as nat) {
                Some((entries, _)) => Some(
                    SampleDescriptionView {
                        version: u8_at(data, at),
                        flags: be_u24(data, at + 1),
                        entry_count: count,
                        entries,
                    },
                ),
                None => None,
            }
        } else {
            None
        }
    }

    /// Whether the box can be written down: its flags fit in 24 bits, it
    /// declares as many descriptions as it has, and each of them can be written
    /// down.
    pub open spec fn encodable(self) -> bool {
        &&& self.flags < 0x100_0000
        &&& self.entry_count == self.entries.len()
        &&& forall|i: int| 0 <= i < self.entries.len() ==> (#[trigger] self.entries[i]).encodable()
    }

    /// The payload that holds the box: version, flags, the number of
    /// descriptions, and the descriptions.
    pub open spec fn encode(self) -> Seq<u8> {
        seq![self.version] + u24_bytes(self.flags) + u32_bytes(self.entry_count) + SampleEntryView::encode_many(
            self.entries,
        )
    }

    /// Decoding the bytes that a box was written down as gives the box back.
    pub proof fn decode_inverts_encode(self, data: Seq<u8>, at: int)
        requires
            self.encodable(),
            holds(data, at, self.encode()),
        ensures
            Self::decode(data, at, self.encode().len() as int) == Some(self),
    {
        let entries = SampleEntryView::encode_many(self.entries);
        let h0 = seq![self.version];
        let h1 = h0 + u24_bytes(self.flags);
        let h2 = h1 + u32_bytes(self.entry_count);
        holds_both(data, at, h2, entries);
        holds_both(data, at, h1, u32_bytes(self.entry_count));
        holds_both(data, at, h0, u24_bytes(self.flags));
        reads_back_u8(data, at, self.version);
        reads_back_u24(data, at + 1, self.flags);
        reads_back_u32(data, at + 4, self.entry_count);
        SampleEntryView::decode_many_inverts_encode_many(
            self.entries,
            data,
            at + 8,
            at + self.encode().len(),
        );
    }

    /// The three properties of the description with index `i`.
    pub open spec fn entry_properties(self, i: int) -> Seq<PropertyView> {
        seq![
            plain(indexed("entry["@, i as nat, "].type"@), self.entries[i].entry_type),
            plain(
                indexed("entry["@, i as nat, "].data_reference_index"@),
                decimal(self.entries[i].data_reference_index as nat),
            ),
            plain(indexed("entry["@, i as nat, "].data"@), decimal(self.entries[i].data.len()) + " bytes"@),
        ]
    }

    /// The properties of the entry at an index, as a function of the index.
    pub open spec fn each_entry(self) -> spec_fn(int) -> Seq<PropertyView> {
        |i: int| self.entry_properties(i)
    }

    /// Version, flags and the declared number of descriptions, then the first
    /// five descriptions and one property for the rest.
    pub open spec fn properties(self) -> Seq<PropertyView> {
        seq![
            plain("version"@, decimal(self.version as nat)),
            plain("flags"@, flags_text(self.flags)),
            plain("entry_count"@, decimal(self.entry_count as nat)),
        ] + listed(shown_count(self.entries.len()), self.each_entry()) + remainder(
            self.entries.len(),
            " more entries"@,
        )
    }

    /// The list of properties is short however long the list of descriptions
    /// is: 3 fixed properties, 3 for each of the first five descriptions,
    /// and one for the rest where there are more than five.
    pub proof fn properties_are_capped(self)
        ensures
            self.properties().len() == 3 + capped_len(self.entries.len(), 3),
    {
        listed_len(shown_count(self.entries.len()), self.each_entry(), 3);
    }
}

impl SampleDescriptionBox {
    /// A box with the fields given.
    pub fn new(version: u8, flags: u32, entry_count: u32, entries: Vec<SampleEntry>) -> (b:
        SampleDescriptionBox)
        ensures
            b@ == (SampleDescriptionView {
                version,
                flags,
                entry_count,
                entries: sample_entry_views(entries@),
            }),
    {
        SampleDescriptionBox { version, flags, entry_count, entries }
    }

    /// One line that says what kind of record this is.
    pub fn description(&self) -> (s: &'static str)
        ensures
            s@ == "Sample Description Box"@,
    {
        "Sample Description Box"
    }

    /// Appends the decoded fields to `properties`, in the order in which they are
    /// shown: the fixed ones, those of the first five entries, and one for the
    /// rest where there are more than five.
    pub fn fill_properties(&self, properties: &mut Vec<Property>)
        ensures
            property_views(final(properties)@) == property_views(old(properties)@) + self@.properties(),
            self@.properties().len() == 3 + capped_len(self@.entries.len(), 3),
    {
        proof {
            self@.properties_are_capped();
        }
        push_plain(properties, "version", u64_to_string(self.version as u64));
        push_plain(properties, "flags", flags_string(self.flags));
        push_plain(properties, "entry_count", u64_to_string(self.entry_count as u64));
        let ghost head = property_views(properties@);
        assert(head =~= property_views(old(properties)@) + seq![
            plain("version"@, decimal(self.version as nat)),
            plain("flags"@, flags_text(self.flags)),
            plain("entry_count"@, decimal(self.entry_count as nat)),
        ]);
        let shown: usize = if self.entries.len() > 5 { 5 } else { self.entries.len() };
        let mut i: usize = 0;
        while i < shown
            invariant
                i <= shown <= self.entries.len(),
                property_views(properties@) == head + listed(i as nat, self@.each_entry()),
            decreases shown - i,
        {
            let ghost before = property_views(properties@);
            let entry = &self.entries[i];
            push_plain(properties, indexed_string("entry[", i, "].type").as_str(), entry.entry_type.clone());
            push_plain(
                properties,
                indexed_string("entry[", i, "].data_reference_index").as_str(),
                u64_to_string(entry.data_reference_index as u64),
            );
            let mut length = u64_to_string(entry.data.len() as u64);
            length.append(" bytes");
            push_plain(properties, indexed_string("entry[", i, "].data").as_str(), length);
            proof {
                assert(self@.entries[i as int] == self.entries@[i as int]@);
                assert(property_views(properties@) =~= before + self@.entry_properties(i as int));
                assert(listed((i + 1) as nat, self@.each_entry()) == listed(i as nat, self@.each_entry())
                    + self@.entry_properties(i as int));
                assert(property_views(properties@) =~= head + listed((i + 1) as nat, self@.each_entry()));
            }
            i = i + 1;
        }
        push_remainder(properties, self.entries.len(), " more entries");
        assert(property_views(properties@) =~= property_views(old(properties)@) + self@.properties());
    }
}

impl SampleEntry {
    /// An entry with the fields given.
    pub fn new(entry_type: String, data_reference_index: u16, data: Vec<u8>) -> (e: SampleEntry)
        ensures
            e@ == (SampleEntryView { entry_type: entry_type@, data_reference_index, data: data@ }),
    {
        SampleEntry { entry_type, data_reference_index, data }
    }
}

} // verus!
