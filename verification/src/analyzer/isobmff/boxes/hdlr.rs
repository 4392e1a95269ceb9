//! The `hdlr` box: which handler presents a medium, and its name.

use crate::analyzer::{
    flags_string, flags_text, plain, property_views, push_plain, Property, PropertyView,
};
use crate::encoding::{
    ends_without_nul, holds, holds_both, reads_back_text, reads_back_u24, reads_back_u8, u24_bytes,
    zero_bytes,
};
use crate::reader::{be_u24, bytes_at, readable, u8_at};
use crate::text::{decimal, u64_to_string, lossy_text, without_trailing_nuls};
use vstd::prelude::*;
use vstd::utf8::encode_utf8;

verus! {

/// The decoded fields of an `hdlr` box.
#[derive(Debug)]
pub struct HandlerBox {
    version: u8,
    flags: u32,
    handler_type: String,
    name: String,
}

/// Mathematical value of a [`HandlerBox`].
pub struct HandlerView {
    pub version: u8,
    pub flags: u32,
    pub handler_type: Seq<char>,
    pub name: Seq<char>,
}

impl View for HandlerBox {
    type V = HandlerView;

    closed spec fn view(&self) -> HandlerView {
        HandlerView {
            version: self.version,
            flags: self.flags,
            handler_type: self.handler_type@,
            name: self.name@,
        }
    }
}

impl HandlerView {
    /// The box read from a payload of `size` bytes at offset `at`: version
    /// and flags, four bytes passed over, the handler type, twelve bytes
    /// passed over, and the name, which fills the rest of the payload and
    /// loses the zero bytes at its end.
    pub open spec fn decode(data: Seq<u8>, at: int, size: int) -> Option<HandlerView> {
        if size >= 24 && readable(data, at, 12) && readable(data, at + 24, size - 24) {
            Some(
                HandlerView {
                    version: u8_at(data, at),
                    flags: be_u24(data, at + 1),
                    handler_type: lossy_text(bytes_at(data, at + 8, 4)),
                    name: lossy_text(without_trailing_nuls(bytes_at(data, at + 24, size - 24))),
                },
            )
        } else {
            None
        }
    }

    /// Whether the box can be written down: its flags fit in 24 bits, its
    /// handler type takes four bytes in UTF-8, and the bytes of its name do not
    /// end with a zero byte.
    pub open spec fn encodable(self) -> bool {
        &&& self.flags < 0x100_0000
        &&& encode_utf8(self.handler_type).len() == 4
        &&& ends_without_nul(encode_utf8(self.name))
    }

    /// The payload that holds the box: its fields in their order, with zero
    /// bytes where the layout leaves room.
    pub open spec fn encode(self) -> Seq<u8> {
        seq![self.version] + u24_bytes(self.flags) + zero_bytes(4) + encode_utf8(self.handler_type)
            + zero_bytes(12) + encode_utf8(self.name)
    }

    /// Decoding the bytes that a box was written down as gives the box back.
    pub proof fn decode_inverts_encode(self, data: Seq<u8>, at: int)
        requires
            self.encodable(),
            holds(data, at, self.encode()),
        ensures
            Self::decode(data, at, self.encode().len() as int) == Some(self),
    {
        let h0 = seq![self.version];
        let h1 = h0 + u24_bytes(self.flags);
        let h2 = h1 + zero_bytes(4);
        let h3 = h2 + encode_utf8(self.handler_type);
        let h4 = h3 + zero_bytes(12);
        let name = encode_utf8(self.name);
        holds_both(data, at, h4, name);
        holds_both(data, at, h3, zero_bytes(12));
        holds_both(data, at, h2, encode_utf8(self.handler_type));
        holds_both(data, at, h1, zero_bytes(4));
        holds_both(data, at, h0, u24_bytes(self.flags));
        reads_back_u8(data, at, self.version);
        reads_back_u24(data, at + 1, self.flags);
        reads_back_text(data, at + 8, self.handler_type);
        reads_back_text(data, at + 24, self.name);
        let size = self.encode().len() as int;
        assert(size == 24 + name.len());
        assert(without_trailing_nuls(name) == name);
    }

    /// The decoded fields as properties, in the order in which they are shown.
    pub open spec fn properties(self) -> Seq<PropertyView> {
        seq![
            plain("version"@, decimal(self.version as nat)),
            plain("flags"@, flags_text(self.flags)),
            plain("handler_type"@, self.handler_type),
            plain("name"@, self.name),
        ]
    }
}

impl HandlerBox {
    /// A box with the fields given.
    pub fn new(version: u8, flags: u32, handler_type: String, name: String) -> (b: HandlerBox)
        ensures
            b@ == (HandlerView { version, flags, handler_type: handler_type@, name: name@ }),
    {
        HandlerBox { version, flags, handler_type, name }
    }

    /// One line that says what kind of record this is.
    pub fn description(&self) -> (s: &'static str)
        ensures
            s@ == "Handler Reference Box"@,
    {
        "Handler Reference Box"
    }

    /// Appends the decoded fields to `properties`, in the order in which they are shown.
    pub fn fill_properties(&self, properties: &mut Vec<Property>)
        ensures
            property_views(final(properties)@) == property_views(old(properties)@) + self@.properties(),
    {
        push_plain(properties, "version", u64_to_string(self.version as u64));
        push_plain(properties, "flags", flags_string(self.flags));
        push_plain(properties, "handler_type", self.handler_type.clone());
        push_plain(properties, "name", self.name.clone());
        assert(property_views(properties@) =~= property_views(old(properties)@) + self@.properties());
    }
}

} // verus!
