//! The `smhd` box: the balance of a sound medium.

use crate::analyzer::isobmff::types::Fixed16_16;
use crate::analyzer::{
    flags_string, flags_text, plain, property_views, push_plain, Property, PropertyView,
};
use crate::encoding::{
    holds, holds_both, reads_back_i16, reads_back_u24, reads_back_u8, u16_bytes, u24_bytes,
    unsigned16, zero_bytes,
};
use crate::reader::{be_i16, be_u24, readable, u8_at};
use crate::text::{decimal, fixed_point, u64_to_string};
use vstd::prelude::*;

verus! {

/// The decoded fields of an `smhd` box.
#[derive(Debug, Clone, Copy, PartialEq, Eq, Structural)]
pub struct SoundMediaHeaderBox {
    pub version: u8,
    pub flags: u32,
    pub balance: Fixed16_16,
}

impl SoundMediaHeaderBox {
    /// The box read from a payload of `size` bytes at offset `at`.  The last
    /// two of its eight bytes are passed over, not read.  The balance is an
    /// 8.8 fixed-point number, kept with sixteen fractional bits.
    pub open spec fn decode(data: Seq<u8>, at: int, size: int) -> Option<SoundMediaHeaderBox> {
        if size >= 8 && readable(data, at, 6) {
            Some(
                SoundMediaHeaderBox {
                    version: u8_at(data, at),
                    flags: be_u24(data, at + 1),
                    balance: Fixed16_16((be_i16(data, at + 4) as int * 256) as i32),
                },
            )
        } else {
            None
        }
    }

    /// Whether the box can be written down: its flags fit in 24 bits and its
    /// balance is an 8.8 number.
    pub open spec fn encodable(self) -> bool {
        self.flags < 0x100_0000 && -0x80_0000 <= self.balance.0 < 0x80_0000 && self.balance.0 % 256 == 0
    }

    /// The payload that holds the box: its fields in their order, then two
    /// zero bytes.
    pub open spec fn encode(self) -> Seq<u8> {
        seq![self.version] + u24_bytes(self.flags) + u16_bytes(unsigned16((self.balance.0 / 256) as i16))
            + zero_bytes(2)
    }

    /// Decoding the bytes that a box was written down as gives the box back.
    pub proof fn decode_inverts_encode(self, data: Seq<u8>, at: int)
        requires
            self.encodable(),
            holds(data, at, self.encode()),
        ensures
            Self::decode(data, at, self.encode().len() as int) == Some(self),
    {
        let balance = (self.balance.0 / 256) as i16;
        let h0 = seq![self.version];
        let h1 = h0 + u24_bytes(self.flags);
        let h2 = h1 + u16_bytes(unsigned16(balance));
        holds_both(data, at, h2, zero_bytes(2));
        holds_both(data, at, h1, u16_bytes(unsigned16(balance)));
        holds_both(data, at, h0, u24_bytes(self.flags));
        reads_back_u8(data, at, self.version);
        reads_back_u24(data, at + 1, self.flags);
        reads_back_i16(data, at + 4, balance);
    }

    /// The decoded fields as properties, in the order in which they are shown.
    pub open spec fn properties(self) -> Seq<PropertyView> {
        seq![
            plain("version"@, decimal(self.version as nat)),
            plain("flags"@, flags_text(self.flags)),
            plain("balance"@, fixed_point(self.balance.0 as int)),
        ]
    }

    /// A box with the fields given.
    pub fn new(version: u8, flags: u32, balance: Fixed16_16) -> (b: SoundMediaHeaderBox)
        ensures
            b == (SoundMediaHeaderBox { version, flags, balance }),
    {
        SoundMediaHeaderBox { version, flags, balance }
    }

    /// One line that says what kind of record this is.
    pub fn description(&self) -> (s: &'static str)
        ensures
            s@ == "Sound Media Header Box"@,
    {
        "Sound Media Header Box"
    }

    /// Appends the decoded fields to `properties`, in the order in which they are shown.
    pub fn fill_properties(&self, properties: &mut Vec<Property>)
        ensures
            property_views(final(properties)@) == property_views(old(properties)@) + self.properties(),
    {
        push_plain(properties, "version", u64_to_string(self.version as u64));
        push_plain(properties, "flags", flags_string(self.flags));
        push_plain(properties, "balance", self.balance.to_text());
        assert(property_views(properties@) =~= property_views(old(properties)@) + self.properties());
    }
}

} // verus!
