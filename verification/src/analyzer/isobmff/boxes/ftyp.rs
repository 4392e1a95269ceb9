//! The `ftyp` box: the brands a file claims to follow.

use crate::analyzer::{plain, property_views, push_plain, Property, PropertyView};
use crate::encoding::{
    holds, holds_both, holds_row, reads_back_text, reads_back_u32, rows_bytes, u32_bytes,
};
use crate::reader::{be_u32, bytes_at, readable};
use crate::text::{decimal, join, joined, string_views, u64_to_string, lossy_text};
use vstd::prelude::*;
use vstd::utf8::encode_utf8;

verus! {

/// The decoded fields of an `ftyp` box.
#[derive(Debug)]
pub struct FileTypeBox {
    major_brand: String,
    minor_version: u32,
    compatible_brands: Vec<String>,
}

/// Mathematical value of a [`FileTypeBox`].
pub struct FileTypeView {
    pub major_brand: Seq<char>,
    pub minor_version: u32,
    pub compatible_brands: Seq<Seq<char>>,
}

impl View for FileTypeBox {
    type V = FileTypeView;

    closed spec fn view(&self) -> FileTypeView {
        FileTypeView {
            major_brand: self.major_brand@,
            minor_version: self.minor_version,
            compatible_brands: string_views(self.compatible_brands@),
        }
    }
}

impl FileTypeView {
    /// Number of compatible brands in a payload of `size` bytes.
    pub open spec fn brand_count(size: int) -> int {
        (size - 8) / 4
    }

    /// The box read from a payload of `size` bytes at offset `at`: the major
    /// brand, the minor version, then as many four-byte brands as fit.
    pub open spec fn decode(data: Seq<u8>, at: int, size: int) -> Option<FileTypeView> {
        if size >= 8 && readable(data, at, 8 + 4 * Self::brand_count(size)) {
            Some(
                FileTypeView {
                    major_brand: lossy_text(bytes_at(data, at, 4)),
                    minor_version: be_u32(data, at + 4),
                    compatible_brands: Seq::new(
                        Self::brand_count(size) as nat,
                        |i: int| lossy_text(bytes_at(data, at + 8 + 4 * i, 4)),
                    ),
                },
            )
        } else {
            None
        }
    }

    /// Whether the box can be written down: the major brand and every
    /// compatible brand take four bytes in UTF-8.
    pub open spec fn encodable(self) -> bool {
        &&& encode_utf8(self.major_brand).len() == 4
        &&& forall|i: int|
            0 <= i < self.compatible_brands.len() ==> encode_utf8(#[trigger] self.compatible_brands[i]).len()
                == 4
    }

    /// The bytes of the row at an index, as a function of the index.
    pub open spec fn each_row(self) -> spec_fn(int) -> Seq<u8> {
        |i: int| encode_utf8(self.compatible_brands[i])
    }

    /// The payload that holds the box: the major brand, the minor version,
    /// and the compatible brands.
    pub open spec fn encode(self) -> Seq<u8> {
        encode_utf8(self.major_brand) + u32_bytes(self.minor_version) + rows_bytes(
            self.compatible_brands.len(),
            4,
            self.each_row(),
        )
    }

    /// Decoding the bytes that a box was written down as gives the box back.
    pub proof fn decode_inverts_encode(self, data: Seq<u8>, at: int)
        requires
            self.encodable(),
            holds(data, at, self.encode()),
        ensures
            Self::decode(data, at, self.encode().len() as int) == Some(self),
    {
        let count = self.compatible_brands.len();
        let rows = rows_bytes(count, 4, self.each_row());
        let h0 = encode_utf8(self.major_brand);
        let h1 = h0 + u32_bytes(self.minor_version);
        holds_both(data, at, h1, rows);
        holds_both(data, at, h0, u32_bytes(self.minor_version));
        reads_back_text(data, at, self.major_brand);
        reads_back_u32(data, at + 4, self.minor_version);
        let size = self.encode().len() as int;
        assert(size == 8 + 4 * count);
        assert(Self::brand_count(size) == count);
        assert forall|i: int| 0 <= i < count implies lossy_text(bytes_at(data, at + 8 + 4 * i, 4))
            == self.compatible_brands[i] by {
            holds_row(data, at + 8, count, 4, self.each_row(), i);
            reads_back_text(data, at + 8 + 4 * i, self.compatible_brands[i]);
        }
        let got = Self::decode(data, at, size);
        assert(got is Some);
        assert(got->0.compatible_brands =~= self.compatible_brands);
    }

    /// The decoded fields as properties, in the order in which they are shown.
    pub open spec fn properties(self) -> Seq<PropertyView> {
        seq![
            plain("major brand"@, self.major_brand),
            plain("minor version"@, decimal(self.minor_version as nat)),
            plain("compatible brands"@, joined(self.compatible_brands, ", "@)),
        ]
    }
}

impl FileTypeBox {
    /// A box with the fields given.
    pub fn new(major_brand: String, minor_version: u32, compatible_brands: Vec<String>) -> (b: FileTypeBox)
        ensures
            b@ == (FileTypeView {
                major_brand: major_brand@,
                minor_version,
                compatible_brands: string_views(compatible_brands@),
            }),
    {
        FileTypeBox { major_brand, minor_version, compatible_brands }
    }

    /// One line that says what kind of record this is.
    pub fn description(&self) -> (s: &'static str)
        ensures
            s@ == "File Type Box"@,
    {
        "File Type Box"
    }

    /// Appends the decoded fields to `properties`, in the order in which they are shown.
    pub fn fill_properties(&self, properties: &mut Vec<Property>)
        ensures
            property_views(final(properties)@) == property_views(old(properties)@) + self@.properties(),
    {
        push_plain(properties, "major brand", self.major_brand.clone());
        push_plain(properties, "minor version", u64_to_string(self.minor_version as u64));
        push_plain(properties, "compatible brands", join(&self.compatible_brands, ", "));
        assert(property_views(properties@) =~= property_views(old(properties)@) + self@.properties());
    }
}

} // verus!
