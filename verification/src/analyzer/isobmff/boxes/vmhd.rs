//! The `vmhd` box: graphics mode and colour of a video medium.

use crate::analyzer::{
    flags_string, flags_text, plain, property_views, push_plain, Property, PropertyView,
};
use crate::encoding::{
    holds, holds_both, reads_back_u16, reads_back_u24, reads_back_u8, u16_bytes, u24_bytes,
};
use crate::reader::{be_u16, be_u24, readable, u8_at};
use crate::text::{bracketed, bracketed_string, decimal, string_views, u64_to_string};
use vstd::prelude::*;

verus! {

/// The decoded fields of a `vmhd` box.
#[derive(Debug)]
pub struct VideoMediaHeaderBox {
    version: u8,
    flags: u32,
    graphics_mode: u16,
    op_color: [u16; 3],
}

/// Mathematical value of a [`VideoMediaHeaderBox`].
pub struct VideoMediaHeaderView {
    pub version: u8,
    pub flags: u32,
    pub graphics_mode: u16,
    pub op_color: Seq<u16>,
}

impl View for VideoMediaHeaderBox {
    type V = VideoMediaHeaderView;

    closed spec fn view(&self) -> VideoMediaHeaderView {
        VideoMediaHeaderView {
            version: self.version,
            flags: self.flags,
            graphics_mode: self.graphics_mode,
            op_color: self.op_color@,
        }
    }
}

impl VideoMediaHeaderView {
    /// The box read from a payload of `size` bytes at offset `at`.
    pub open spec fn decode(data: Seq<u8>, at: int, size: int) -> Option<VideoMediaHeaderView> {
        if size >= 12 && readable(data, at, 12) {
            Some(
                VideoMediaHeaderView {
                    version: u8_at(data, at),
                    flags: be_u24(data, at + 1),
                    graphics_mode: be_u16(data, at + 4),
                    op_color: Seq::new(3, |i: int| be_u16(data, at + 6 + 2 * i)),
                },
            )
        } else {
            None
        }
    }

    /// Whether the box can be written down: its flags fit in 24 bits and its
    /// colour has three parts.
    pub open spec fn encodable(self) -> bool {
        self.flags < 0x100_0000 && self.op_color.len() == 3
    }

    /// The payload that holds the box: its fields in their order.
    pub open spec fn encode(self) -> Seq<u8> {
        seq![self.version] + u24_bytes(self.flags) + u16_bytes(self.graphics_mode) + u16_bytes(
            self.op_color[0],
        ) + u16_bytes(self.op_color[1]) + u16_bytes(self.op_color[2])
    }

    /// Decoding the bytes that a box was written down as gives the box back.
    pub proof fn decode_inverts_encode(self, data: Seq<u8>, at: int)
        requires
            self.encodable(),
            holds(data, at, self.encode()),
        ensures
            Self::decode(data, at, self.encode().len() as int) == Some(self),
    {
        let h0 = seq![self.version];
        let h1 = h0 + u24_bytes(self.flags);
        let h2 = h1 + u16_bytes(self.graphics_mode);
        let h3 = h2 + u16_bytes(self.op_color[0]);
        let h4 = h3 + u16_bytes(self.op_color[1]);
        holds_both(data, at, h4, u16_bytes(self.op_color[2]));
        holds_both(data, at, h3, u16_bytes(self.op_color[1]));
        holds_both(data, at, h2, u16_bytes(self.op_color[0]));
        holds_both(data, at, h1, u16_bytes(self.graphics_mode));
        holds_both(data, at, h0, u24_bytes(self.flags));
        reads_back_u8(data, at, self.version);
        reads_back_u24(data, at + 1, self.flags);
        reads_back_u16(data, at + 4, self.graphics_mode);
        reads_back_u16(data, at + 6, self.op_color[0]);
        reads_back_u16(data, at + 8, self.op_color[1]);
        reads_back_u16(data, at + 10, self.op_color[2]);
        let got = Self::decode(data, at, self.encode().len() as int);
        assert(got is Some);
        assert(got->0.op_color =~= self.op_color);
    }

    /// The three parts of the colour as decimal texts.
    pub open spec fn color_texts(self) -> Seq<Seq<char>> {
        Seq::new(3, |i: int| decimal(self.op_color[i] as nat))
    }

    /// The decoded fields as properties, in the order in which they are shown.
    pub open spec fn properties(self) -> Seq<PropertyView> {
        seq![
            plain("version"@, decimal(self.version as nat)),
            plain("flags"@, flags_text(self.flags)),
            plain("graphics_mode"@, decimal(self.graphics_mode as nat)),
            plain("op_color"@, bracketed(self.color_texts())),
        ]
    }
}

impl VideoMediaHeaderBox {
    /// A box with the fields given.
    pub fn new(version: u8, flags: u32, graphics_mode: u16, op_color: [u16; 3]) -> (b:
        VideoMediaHeaderBox)
        ensures
            b@ == (VideoMediaHeaderView { version, flags, graphics_mode, op_color: op_color@ }),
    {
        VideoMediaHeaderBox { version, flags, graphics_mode, op_color }
    }

    /// One line that says what kind of record this is.
    pub fn description(&self) -> (s: &'static str)
        ensures
            s@ == "Video Media Header Box"@,
    {
        "Video Media Header Box"
    }

    /// Appends the decoded fields to `properties`, in the order in which they are shown.
    pub fn fill_properties(&self, properties: &mut Vec<Property>)
        ensures
            property_views(final(properties)@) == property_views(old(properties)@) + self@.properties(),
    {
        push_plain(properties, "version", u64_to_string(self.version as u64));
        push_plain(properties, "flags", flags_string(self.flags));
        push_plain(properties, "graphics_mode", u64_to_string(self.graphics_mode as u64));
        let mut parts: Vec<String> = Vec::new();
        parts.push(u64_to_string(self.op_color[0] as u64));
        parts.push(u64_to_string(self.op_color[1] as u64));
        parts.push(u64_to_string(self.op_color[2] as u64));
        proof {
            assert(string_views(parts@) =~= self@.color_texts());
        }
        push_plain(properties, "op_color", bracketed_string(&parts));
        assert(property_views(properties@) =~= property_views(old(properties)@) + self@.properties());
    }
}

} // verus!
