//! The `dref` box: where the media data of a track is to be found.

use crate::analyzer::isobmff::types::code_of;
use crate::analyzer::{
    capped_len, flags_string, flags_text, indexed, indexed_string, listed, listed_len, plain,
    property_views, push_plain, push_remainder, push_shown, remainder, shown, shown_count,
    Property, PropertyView,
};
use crate::encoding::{
    ends_without_nul, holds, holds_both, nul_ends_bytes, reads_back_padded_text, reads_back_text,
    reads_back_u24, reads_back_u32, reads_back_u8, u24_bytes, u32_bytes, without_nul, zero_bytes,
};
use crate::reader::{be_u24, be_u32, bytes_at, nul_offset, readable, u8_at};
use crate::text::{decimal, u64_to_string, without_trailing_nuls};
use vstd::prelude::*;
use vstd::string::StringExecFns;
use vstd::utf8::{decode_utf8, encode_utf8, valid_utf8};

verus! {

/// One data reference: a URL, or a URN with a name and a location.
#[derive(Debug)]
pub enum DataEntryBox {
    Url { version: u8, flags: u32, location: String },
    Urn { version: u8, flags: u32, name: String, location: String },
}

/// Mathematical value of a [`DataEntryBox`].
pub enum DataEntryView {
    Url { version: u8, flags: u32, location: Seq<char> },
    Urn { version: u8, flags: u32, name: Seq<char>, location: Seq<char> },
}

impl View for DataEntryBox {
    type V = DataEntryView;

    open spec fn view(&self) -> DataEntryView {
        match self {
            DataEntryBox::Url { version, flags, location } => DataEntryView::Url {
                version: *version,
                flags: *flags,
                location: location@,
            },
            DataEntryBox::Urn { version, flags, name, location } => DataEntryView::Urn {
                version: *version,
                flags: *flags,
                name: name@,
                location: location@,
            },
        }
    }
}

/// The views of a list of data references.
pub open spec fn data_entry_views(items: Seq<DataEntryBox>) -> Seq<DataEntryView> {
    Seq::new(items.len(), |i: int| items[i]@)
}

/// The decoded fields of a `dref` box.
#[derive(Debug)]
pub struct DataReferenceBox {
    version: u8,
    flags: u32,
    entries: Vec<DataEntryBox>,
}

/// Mathematical value of a [`DataReferenceBox`].
pub struct DataReferenceView {
    pub version: u8,
    pub flags: u32,
    pub entries: Seq<DataEntryView>,
}

impl View for DataReferenceBox {
    type V = DataReferenceView;

    closed spec fn view(&self) -> DataReferenceView {
        DataReferenceView {
            version: self.version,
            flags: self.flags,
            entries: data_entry_views(self.entries@),
        }
    }
}

/// What the entry at some offset adds to the list of references.
pub enum DataEntryStep {
    /// A reference of a known type.
    Entry(DataEntryView),
    /// An entry of another type, passed over.
    Skipped,
}

impl DataEntryView {
    /// The location of a URL entry of `entry_size` bytes at offset `at`: the
    /// bytes after the twelve of its header, without the zero bytes at their
    /// end, where these are valid UTF-8.
    pub open spec fn url_location(data: Seq<u8>, at: int, entry_size: int) -> Option<Seq<char>> {
        let raw = without_trailing_nuls(bytes_at(data, at + 12, entry_size - 12));
        if readable(data, at + 12, entry_size - 12) && valid_utf8(raw) {
            Some(decode_utf8(raw))
        } else {
            None
        }
    }

    /// The text that ends with the first zero byte at or after offset `at`,
    /// and the offset after that byte, where there is such a byte and the text
    /// is valid UTF-8.
    pub open spec fn terminated_text(data: Seq<u8>, at: int) -> Option<(Seq<char>, int)> {
        let stop = nul_offset(data, at);
        let raw = bytes_at(data, at, stop - at);
        if 0 <= at && stop < data.len() && valid_utf8(raw) {
            Some((decode_utf8(raw), stop + 1))
        } else {
            None
        }
    }

    /// What the entry at offset `at` adds, where it ends at or before `end`:
    /// its size with the twelve bytes of its header counted in, its type, its
    /// version and its flags.  A URL entry holds its location unless the lowest
    /// bit of its flags says that the media is in the same file; a URN entry
    /// holds a name and a location, each ended by a zero byte, which must lie
    /// inside the entry; an entry of another type is passed over.
    pub open spec fn decode(data: Seq<u8>, at: int, end: int) -> Option<DataEntryStep> {
        let entry_size = be_u32(data, at);
        let code = bytes_at(data, at + 4, 4);
        let version = u8_at(data, at + 8);
        let flags = be_u24(data, at + 9);
        if readable(data, at, 12) && entry_size >= 12 && at + entry_size <= end {
            if code == code_of('u', 'r', 'l', ' ') {
                if flags % 2 == 0 {
                    match Self::url_location(data, at, entry_size as int) {
                        Some(location) => Some(
                            DataEntryStep::Entry(DataEntryView::Url { version, flags, location }),
                        ),
                        None => None,
                    }
                } else {
                    Some(DataEntryStep::Entry(DataEntryView::Url { version, flags, location: Seq::empty() }))
                }
            } else if code == code_of('u', 'r', 'n', ' ') {
                match Self::terminated_text(data, at + 12) {
                    Some((name, after_name)) => match Self::terminated_text(data, after_name) {
                        Some((location, after_location)) => if after_location <= at + entry_size {
                            Some(DataEntryStep::Entry(DataEntryView::Urn { version, flags, name, location }))
                        } else {
                            None
                        },
                        None => None,
                    },
                    None => None,
                }
            } else {
                Some(DataEntryStep::Skipped)
            }
        } else {
            None
        }
    }

    /// Whether the reference can be written down.  A URL whose flags say that
    /// the media is in the same file has no location; the bytes of another
    /// URL's location do not end with a zero byte; the bytes of a URN's name
    /// and location hold no zero byte.  The flags fit in 24 bits and the size
    /// in 32.
    pub open spec fn encodable(self) -> bool {
        match self {
            DataEntryView::Url { version, flags, location } => {
                &&& flags < 0x100_0000
                &&& flags % 2 == 1 ==> location.len() == 0
                &&& ends_without_nul(encode_utf8(location))
                &&& 12 + encode_utf8(location).len() <= u32::MAX
            },
            DataEntryView::Urn { version, flags, name, location } => {
                &&& flags < 0x100_0000
                &&& without_nul(encode_utf8(name))
                &&& without_nul(encode_utf8(location))
                &&& 14 + encode_utf8(name).len() + encode_utf8(location).len() <= u32::MAX
            },
        }
    }

    /// The bytes after the header of the entry that holds the reference.
    pub open spec fn encode_body(self) -> Seq<u8> {
        match self {
            DataEntryView::Url { version, flags, location } => encode_utf8(location),
            DataEntryView::Urn { version, flags, name, location } => encode_utf8(name) + seq![0u8]
                + encode_utf8(location) + seq![0u8],
        }
    }

    /// The type of the entry that holds the reference.
    pub open spec fn code(self) -> Seq<u8> {
        match self {
            DataEntryView::Url { .. } => code_of('u', 'r', 'l', ' '),
            DataEntryView::Urn { .. } => code_of('u', 'r', 'n', ' '),
        }
    }

    /// The version of the entry.
    pub open spec fn entry_version(self) -> u8 {
        match self {
            DataEntryView::Url { version, .. } => version,
            DataEntryView::Urn { version, .. } => version,
        }
    }

    /// The flags of the entry.
    pub open spec fn entry_flags(self) -> u32 {
        match self {
            DataEntryView::Url { flags, .. } => flags,
            DataEntryView::Urn { flags, .. } => flags,
        }
    }

    /// The bytes that hold the reference: the size of the entry, its type,
    /// its version, its flags, and its body.
    pub open spec fn encode(self) -> Seq<u8> {
        u32_bytes((12 + self.encode_body().len()) as u32) + self.code() + seq![self.entry_version()]
            + u24_bytes(self.entry_flags()) + self.encode_body()
    }

    /// The bytes that hold the reference in an entry with `padding` zero
    /// bytes after its body.
    pub open spec fn encode_padded(self, padding: nat) -> Seq<u8> {
        u32_bytes((12 + self.encode_body().len() + padding) as u32) + self.code() + seq![self.entry_version()]
            + u24_bytes(self.entry_flags()) + self.encode_body() + zero_bytes(padding)
    }

    /// Decoding the bytes that a reference was written down as gives the
    /// reference back, also where zero bytes fill the end of the entry: the
    /// zero bytes at the end of a location are dropped, and those after a URN
    /// or after a URL without a location are passed over.
    pub proof fn decode_inverts_padded_encode(self, padding: nat, data: Seq<u8>, at: int, end: int)
        requires
            self.encodable(),
            12 + self.encode_body().len() + padding <= u32::MAX,
            holds(data, at, self.encode_padded(padding)),
            at + self.encode_padded(padding).len() <= end,
        ensures
            self.encode_padded(padding).len() == 12 + self.encode_body().len() + padding,
            be_u32(data, at) == self.encode_padded(padding).len(),
            Self::decode(data, at, end) == Some(DataEntryStep::Entry(self)),
    {
        let body = self.encode_body();
        let size = (12 + body.len() + padding) as u32;
        let h0 = u32_bytes(size);
        let h1 = h0 + self.code();
        let h2 = h1 + seq![self.entry_version()];
        let h3 = h2 + u24_bytes(self.entry_flags());
        let h4 = h3 + body;
        holds_both(data, at, h4, zero_bytes(padding));
        holds_both(data, at, h3, body);
        holds_both(data, at, h2, u24_bytes(self.entry_flags()));
        holds_both(data, at, h1, seq![self.entry_version()]);
        holds_both(data, at, h0, self.code());
        reads_back_u32(data, at, size);
        reads_back_u8(data, at + 8, self.entry_version());
        reads_back_u24(data, at + 9, self.entry_flags());
        assert(bytes_at(data, at + 4, 4) == self.code());
        assert(code_of('u', 'r', 'l', ' ')[2] != code_of('u', 'r', 'n', ' ')[2]);
        match self {
            DataEntryView::Url { version, flags, location } => {
                if flags % 2 == 0 {
                    let text = encode_utf8(location);
                    assert(bytes_at(data, at + 12, (text.len() + padding) as int) =~= text + zero_bytes(padding)) by {
                        assert(bytes_at(data, at + 12, text.len() as int) == text);
                        assert(bytes_at(data, at + 12 + text.len(), padding as int) == zero_bytes(padding));
                    }
                    reads_back_padded_text(data, at + 12, location, padding);
                    assert(Self::url_location(data, at, size as int) == Some(location));
                } else {
                    assert(location =~= Seq::empty());
                }
            },
            DataEntryView::Urn { version, flags, name, location } => {
                let first = encode_utf8(name) + seq![0u8];
                let second = encode_utf8(location) + seq![0u8];
                assert(body =~= first + second);
                holds_both(data, at + 12, first, second);
                nul_ends_bytes(data, at + 12, encode_utf8(name));
                nul_ends_bytes(data, at + 12 + first.len(), encode_utf8(location));
                reads_back_text(data, at + 12, name);
                reads_back_text(data, at + 12 + first.len(), location);
            },
        }
    }

    /// Decoding the bytes that a reference was written down as gives the
    /// reference back.
    pub proof fn decode_inverts_encode(self, data: Seq<u8>, at: int, end: int)
        requires
            self.encodable(),
            holds(data, at, self.encode()),
            at + self.encode().len() <= end,
        ensures
            self.encode().len() == 12 + self.encode_body().len(),
            be_u32(data, at) == self.encode().len(),
            Self::decode(data, at, end) == Some(DataEntryStep::Entry(self)),
    {
        assert(self.encode_padded(0) =~= self.encode());
        self.decode_inverts_padded_encode(0, data, at, end);
    }

    /// The references written down one after another.
    pub open spec fn encode_many(entries: Seq<DataEntryView>) -> Seq<u8>
        decreases entries.len(),
    {
        if entries.len() == 0 {
            Seq::empty()
        } else {
            Self::encode_many(entries.drop_last()) + entries.last().encode()
        }
    }

    /// Decoding the bytes that references were written down as gives the
    /// references back, and the offset after them.
    pub proof fn decode_many_inverts_encode_many(entries: Seq<DataEntryView>, data: Seq<u8>, at: int, end: int)
        requires
            forall|i: int| 0 <= i < entries.len() ==> (#[trigger] entries[i]).encodable(),
            holds(data, at, Self::encode_many(entries)),
            at + Self::encode_many(entries).len() <= end,
        ensures
            Self::decode_many(data, at, end, entries.len()) == Some(
                (entries, at + Self::encode_many(entries).len()),
            ),
        decreases entries.len(),
    {
        if entries.len() == 0 {
            assert(entries =~= Seq::empty());
        } else {
            let front = entries.drop_last();
            let last = entries.last();
            holds_both(data, at, Self::encode_many(front), last.encode());
            assert forall|i: int| 0 <= i < front.len() implies (#[trigger] front[i]).encodable() by {
                assert(front[i] == entries[i]);
            }
            Self::decode_many_inverts_encode_many(front, data, at, end);
            last.decode_inverts_encode(data, at + Self::encode_many(front).len(), end);
            assert(front.push(last) =~= entries);
        }
    }

    /// The references among the first `count` entries from offset `at` on,
    /// each entry ending at or before `end`, and the offset after the last
    /// entry.
    pub open spec fn decode_many(data: Seq<u8>, at: int, end: int, count: nat) -> Option<
        (Seq<DataEntryView>, int),
    >
        decreases count,
    {
        if count == 0 {
            Some((Seq::empty(), at))
        } else {
            match Self::decode_many(data, at, end, (count - 1) as nat) {
                Some((entries, next)) => match Self::decode(data, next, end) {
                    Some(DataEntryStep::Entry(entry)) => Some(
                        (entries.push(entry), next + be_u32(data, next)),
                    ),
                    Some(DataEntryStep::Skipped) => Some((entries, next + be_u32(data, next))),
                    None => None,
                },
                None => None,
            }
        }
    }

    /// Where fewer entries cannot be decoded, more cannot either.
    pub proof fn decode_many_fails_on(data: Seq<u8>, at: int, end: int, fewer: nat, more: nat)
        requires
            fewer <= more,
            Self::decode_many(data, at, end, fewer) is None,
        ensures
            Self::decode_many(data, at, end, more) is None,
        decreases more,
    {
        if fewer < more {
            Self::decode_many_fails_on(data, at, end, fewer, (more - 1) as nat);
        }
    }

    /// The property of this reference, shown as the entry with index `i`.
    pub open spec fn property(self, i: int) -> PropertyView {
        match self {
            DataEntryView::Url { version, flags, location } => shown(
                indexed("url["@, i as nat, "]"@),
                "flags="@ + flags_text(flags),
                "URL: "@ + location,
            ),
            DataEntryView::Urn { version, flags, name, location } => shown(
                indexed("urn["@, i as nat, "]"@),
                "flags="@ + flags_text(flags),
                "URN: "@ + name + " -> "@ + location,
            ),
        }
    }
}

impl DataReferenceView {
    /// The box read from a payload of `size` bytes at offset `at`: version,
    /// flags, the number of entries, and the entries.
    pub open spec fn decode(data: Seq<u8>, at: int, size: int) -> Option<DataReferenceView> {
        let count = be_u32(data, at + 4);
        if readable(data, at, 8) && size >= 8 {
            match DataEntryView::decode_many(data, at + 8, at + size, count as nat) {
                Some((entries, _)) => Some(
                    DataReferenceView { version: u8_at(data, at), flags: be_u24(data, at + 1), entries },
                ),
                None => None,
            }
        } else {
            None
        }
    }

    /// Whether the box can be written down: its flags fit in 24 bits, the
    /// number of its references in 32, and each reference can be written down.
    pub open spec fn encodable(self) -> bool {
        &&& self.flags < 0x100_0000
        &&& self.entries.len() <= u32::MAX
        &&& forall|i: int| 0 <= i < self.entries.len() ==> (#[trigger] self.entries[i]).encodable()
    }

    /// The payload that holds the box: version, flags, the number of
    /// references, and the references.
    pub open spec fn encode(self) -> Seq<u8> {
        seq![self.version] + u24_bytes(self.flags) + u32_bytes(self.entries.len() as u32)
            + DataEntryView::encode_many(self.entries)
    }

    /// Decoding the bytes that a box was written down as gives the box back.
    pub proof fn decode_inverts_encode(self, data: Seq<u8>, at: int)
        requires
            self.encodable(),
            holds(data, at, self.encode()),
        ensures
            Self::decode(data, at, self.encode().len() as int) == Some(self),
    {
        let count = self.entries.len() as u32;
        let entries = DataEntryView::encode_many(self.entries);
        let h0 = seq![self.version];
        let h1 = h0 + u24_bytes(self.flags);
        let h2 = h1 + u32_bytes(count);
        holds_both(data, at, h2, entries);
        holds_both(data, at, h1, u32_bytes(count));
        holds_both(data, at, h0, u24_bytes(self.flags));
        reads_back_u8(data, at, self.version);
        reads_back_u24(data, at + 1, self.flags);
        reads_back_u32(data, at + 4, count);
        DataEntryView::decode_many_inverts_encode_many(self.entries, data, at + 8, at + self.encode().len());
    }

    /// The property of the reference with index `i`.
    pub open spec fn entry_properties(self, i: int) -> Seq<PropertyView> {
        seq![self.entries[i].property(i)]
    }

    /// The properties of the entry at an index, as a function of the index.
    pub open spec fn each_entry(self) -> spec_fn(int) -> Seq<PropertyView> {
        |i: int| self.entry_properties(i)
    }

    /// Version, flags and the number of references, then the first five
    /// references and one property for the rest.
    pub open spec fn properties(self) -> Seq<PropertyView> {
        seq![
            plain("version"@, decimal(self.version as nat)),
            plain("flags"@, flags_text(self.flags)),
            shown("entry_count"@, decimal(self.entries.len()), decimal(self.entries.len()) + " entries"@),
        ] + listed(shown_count(self.entries.len()), self.each_entry()) + remainder(
            self.entries.len(),
            " more entries"@,
        )
    }

    /// The list of properties is short however long the list of references
    /// is: 3 fixed properties, 1 for each of the first five references,
    /// and one for the rest where there are more than five.
    pub proof fn properties_are_capped(self)
        ensures
            self.properties().len() == 3 + capped_len(self.entries.len(), 1),
    {
        listed_len(shown_count(self.entries.len()), self.each_entry(), 1);
    }
}

impl DataReferenceBox {
    /// A box with the fields given.
    pub fn new(version: u8, flags: u32, entries: Vec<DataEntryBox>) -> (b: DataReferenceBox)
        ensures
            b@ == (DataReferenceView { version, flags, entries: data_entry_views(entries@) }),
    {
        DataReferenceBox { version, flags, entries }
    }

    /// One line that says what kind of record this is.
    pub fn description(&self) -> (s: &'static str)
        ensures
            s@ == "Data Reference Box"@,
    {
        "Data Reference Box"
    }

    /// Appends the decoded fields to `properties`, in the order in which they are
    /// shown: the fixed ones, those of the first five entries, and one for the
    /// rest where there are more than five.
    pub fn fill_properties(&self, properties: &mut Vec<Property>)
        ensures
            property_views(final(properties)@) == property_views(old(properties)@) + self@.properties(),
            self@.properties().len() == 3 + capped_len(self@.entries.len(), 1),
    {
        proof {
            self@.properties_are_capped();
        }
        push_plain(properties, "version", u64_to_string(self.version as u64));
        push_plain(properties, "flags", flags_string(self.flags));
        let mut readable_count = u64_to_string(self.entries.len() as u64);
        readable_count.append(" entries");
        push_shown(properties, "entry_count", u64_to_string(self.entries.len() as u64), readable_count);
        let ghost head = property_views(properties@);
        assert(head =~= property_views(old(properties)@) + seq![
            plain("version"@, decimal(self.version as nat)),
            plain("flags"@, flags_text(self.flags)),
            shown(
                "entry_count"@,
                decimal(self.entries.len() as nat),
                decimal(self.entries.len() as nat) + " entries"@,
            ),
        ]);
        let shown_entries: usize = if self.entries.len() > 5 { 5 } else { self.entries.len() };
        let mut i: usize = 0;
        while i < shown_entries
            invariant
                i <= shown_entries <= self.entries.len(),
                property_views(properties@) == head + listed(i as nat, self@.each_entry()),
            decreases shown_entries - i,
        {
            let ghost before = property_views(properties@);
            match &self.entries[i] {
                DataEntryBox::Url { version, flags, location } => {
                    let mut value = String::from_str("flags=");
                    value.append(flags_string(*flags).as_str());
                    let mut text = String::from_str("URL: ");
                    text.append(location.as_str());
                    push_shown(properties, indexed_string("url[", i, "]").as_str(), value, text);
                },
                DataEntryBox::Urn { version, flags, name, location } => {
                    let mut value = String::from_str("flags=");
                    value.append(flags_string(*flags).as_str());
                    let mut text = String::from_str("URN: ");
                    text.append(name.as_str());
                    text.append(" -> ");
                    text.append(location.as_str());
                    push_shown(properties, indexed_string("urn[", i, "]").as_str(), value, text);
                },
            }
            proof {
                assert(self@.entries[i as int] == self.entries@[i as int]@);
                assert(property_views(properties@) =~= before + self@.entry_properties(i as int));
                assert(listed((i + 1) as nat, self@.each_entry()) == listed(i as nat, self@.each_entry())
                    + self@.entry_properties(i as int));
                assert(property_views(properties@) =~= head + listed((i + 1) as nat, self@.each_entry()));
            }
            i = i + 1;
        }
        push_remainder(properties, self.entries.len(), " more entries");
        assert(property_views(properties@) =~= property_views(old(properties)@) + self@.properties());
    }
}

} // verus!
