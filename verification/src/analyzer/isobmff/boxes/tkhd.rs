//! The `tkhd` box: times, identity, layer, volume, matrix and size of a track.

use crate::analyzer::isobmff::types::{
    number_bytes, number_texts, numbers_read_back, Fixed16_16, Matrix, Mp4DateTime,
};
use crate::analyzer::{
    flags_string, flags_text, plain, property_views, push_plain, Property, PropertyView,
};
use crate::encoding::{
    holds, holds_both, reads_back_i16, reads_back_i32, reads_back_u24, reads_back_u32,
    reads_back_u64, reads_back_u8, u16_bytes, u24_bytes, u32_bytes, u64_bytes, unsigned16,
    unsigned32, zero_bytes,
};
use crate::reader::{be_i16, be_i32, be_u24, be_u32, be_u64, readable, u8_at};
use crate::text::{bracketed, decimal, fixed_point, i64_to_string, signed_decimal, u64_to_string};
use vstd::prelude::*;

verus! {

/// The decoded fields of a `tkhd` box.
#[derive(Debug)]
pub struct TrackHeaderBox {
    version: u8,
    flags: u32,
    creation_time: Mp4DateTime,
    modification_time: Mp4DateTime,
    track_id: u32,
    duration: u64,
    layer: i16,
    alternate_group: i16,
    volume: Fixed16_16,
    matrix: Matrix,
    width: Fixed16_16,
    height: Fixed16_16,
}

/// Mathematical value of a [`TrackHeaderBox`].
pub struct TrackHeaderView {
    pub version: u8,
    pub flags: u32,
    pub creation_time: Mp4DateTime,
    pub modification_time: Mp4DateTime,
    pub track_id: u32,
    pub duration: u64,
    pub layer: i16,
    pub alternate_group: i16,
    pub volume: Fixed16_16,
    pub matrix: Seq<i32>,
    pub width: Fixed16_16,
    pub height: Fixed16_16,
}

impl View for TrackHeaderBox {
    type V = TrackHeaderView;

    closed spec fn view(&self) -> TrackHeaderView {
        TrackHeaderView {
            version: self.version,
            flags: self.flags,
            creation_time: self.creation_time,
            modification_time: self.modification_time,
            track_id: self.track_id,
            duration: self.duration,
            layer: self.layer,
            alternate_group: self.alternate_group,
            volume: self.volume,
            matrix: self.matrix@,
            width: self.width,
            height: self.height,
        }
    }
}

impl TrackHeaderView {
    /// Length of the times, the track number, the reserved word and the
    /// duration: 64-bit times and duration in version 1, 32-bit ones otherwise.
    pub open spec fn times_len(version: u8) -> int {
        if version == 1 {
            32
        } else {
            20
        }
    }

    /// Length of all the fields of the box.
    pub open spec fn fields_len(version: u8) -> int {
        4 + Self::times_len(version) + 60
    }

    /// The box read from a payload of `size` bytes at offset `at`.  The
    /// volume is an 8.8 fixed-point number, kept with sixteen fractional bits.
    pub open spec fn decode(data: Seq<u8>, at: int, size: int) -> Option<TrackHeaderView> {
        let version = u8_at(data, at);
        let rest = at + 4 + Self::times_len(version);
        if readable(data, at, 4) && size >= Self::fields_len(version) && readable(
            data,
            at,
            Self::fields_len(version),
        ) {
            Some(
                TrackHeaderView {
                    version,
                    flags: be_u24(data, at + 1),
                    creation_time: Mp4DateTime(
                        if version == 1 {
                            be_u64(data, at + 4)
                        } else {
                            be_u32(data, at + 4) as u64
                        },
                    ),
                    modification_time: Mp4DateTime(
                        if version == 1 {
                            be_u64(data, at + 12)
                        } else {
                            be_u32(data, at + 8) as u64
                        },
                    ),
                    track_id: if version == 1 {
                        be_u32(data, at + 20)
                    } else {
                        be_u32(data, at + 12)
                    },
                    duration: if version == 1 {
                        be_u64(data, at + 28)
                    } else {
                        be_u32(data, at + 20) as u64
                    },
                    layer: be_i16(data, rest + 8),
                    alternate_group: be_i16(data, rest + 10),
                    volume: Fixed16_16((be_i16(data, rest + 12) as int * 256) as i32),
                    matrix: Seq::new(9, |i: int| be_i32(data, rest + 16 + 4 * i)),
                    width: Fixed16_16(be_i32(data, rest + 52)),
                    height: Fixed16_16(be_i32(data, rest + 56)),
                },
            )
        } else {
            None
        }
    }

    /// Whether the box can be written down: its version is 0 or 1, its flags
    /// fit in 24 bits, its times and duration fit in 32 bits in version 0, its
    /// volume is an 8.8 number, and its matrix has nine numbers.
    pub open spec fn encodable(self) -> bool {
        &&& self.version == 0 || self.version == 1
        &&& self.flags < 0x100_0000
        &&& self.version == 0 ==> self.creation_time.0 <= u32::MAX && self.modification_time.0 <= u32::MAX
            && self.duration <= u32::MAX
        &&& -0x80_0000 <= self.volume.0 < 0x80_0000 && self.volume.0 % 256 == 0
        &&& self.matrix.len() == 9
    }

    /// The times, the track number, four zero bytes and the duration as
    /// bytes.
    pub open spec fn encode_times(self) -> Seq<u8> {
        if self.version == 1 {
            u64_bytes(self.creation_time.0) + u64_bytes(self.modification_time.0) + u32_bytes(self.track_id)
                + zero_bytes(4) + u64_bytes(self.duration)
        } else {
            u32_bytes(self.creation_time.0 as u32) + u32_bytes(self.modification_time.0 as u32) + u32_bytes(
                self.track_id,
            ) + zero_bytes(4) + u32_bytes(self.duration as u32)
        }
    }

    /// The payload that holds the box: its fields in their order, with zero
    /// bytes where the layout leaves room.
    pub open spec fn encode(self) -> Seq<u8> {
        seq![self.version] + u24_bytes(self.flags) + self.encode_times() + zero_bytes(8) + u16_bytes(
            unsigned16(self.layer),
        ) + u16_bytes(unsigned16(self.alternate_group)) + u16_bytes(
            unsigned16((self.volume.0 / 256) as i16),
        ) + zero_bytes(2) + number_bytes(self.matrix) + u32_bytes(unsigned32(self.width.0)) + u32_bytes(
            unsigned32(self.height.0),
        )
    }

    /// The times, track number and duration that stand in `data` are read
    /// back.
    #[verifier::rlimit(40)]
    proof fn times_read_back(self, data: Seq<u8>, at: int)
        requires
            self.encodable(),
            holds(data, at, self.encode_times()),
        ensures
            self.encode_times().len() == Self::times_len(self.version),
            readable(data, at, Self::times_len(self.version)),
            self.version == 1 ==> be_u64(data, at) == self.creation_time.0 && be_u64(data, at + 8)
                == self.modification_time.0 && be_u32(data, at + 16) == self.track_id && be_u64(data, at + 24)
                == self.duration,
            self.version == 0 ==> be_u32(data, at) == self.creation_time.0 && be_u32(data, at + 4)
                == self.modification_time.0 && be_u32(data, at + 8) == self.track_id && be_u32(data, at + 16)
                == self.duration,
    {
        if self.version == 1 {
            let a = u64_bytes(self.creation_time.0);
            let b = u64_bytes(self.modification_time.0);
            let c = u32_bytes(self.track_id);
            let d = u64_bytes(self.duration);
            holds_both(data, at, a + b + c + zero_bytes(4), d);
            holds_both(data, at, a + b + c, zero_bytes(4));
            holds_both(data, at, a + b, c);
            holds_both(data, at, a, b);
            reads_back_u64(data, at, self.creation_time.0);
            reads_back_u64(data, at + 8, self.modification_time.0);
            reads_back_u32(data, at + 16, self.track_id);
            reads_back_u64(data, at + 24, self.duration);
        } else {
            let a = u32_bytes(self.creation_time.0 as u32);
            let b = u32_bytes(self.modification_time.0 as u32);
            let c = u32_bytes(self.track_id);
            let d = u32_bytes(self.duration as u32);
            holds_both(data, at, a + b + c + zero_bytes(4), d);
            holds_both(data, at, a + b + c, zero_bytes(4));
            holds_both(data, at, a + b, c);
            holds_both(data, at, a, b);
            reads_back_u32(data, at, self.creation_time.0 as u32);
            reads_back_u32(data, at + 4, self.modification_time.0 as u32);
            reads_back_u32(data, at + 8, self.track_id);
            reads_back_u32(data, at + 16, self.duration as u32);
        }
    }

    /// Decoding the bytes that a box was written down as gives the box back.
    #[verifier::rlimit(40)]
    pub proof fn decode_inverts_encode(self, data: Seq<u8>, at: int)
        requires
            self.encodable(),
            holds(data, at, self.encode()),
        ensures
            Self::decode(data, at, self.encode().len() as int) == Some(self),
    {
        let volume = (self.volume.0 / 256) as i16;
        let h0 = seq![self.version];
        let h1 = h0 + u24_bytes(self.flags);
        let h2 = h1 + self.encode_times();
        let h3 = h2 + zero_bytes(8);
        let h4 = h3 + u16_bytes(unsigned16(self.layer));
        let h5 = h4 + u16_bytes(unsigned16(self.alternate_group));
        let h6 = h5 + u16_bytes(unsigned16(volume));
        let h7 = h6 + zero_bytes(2);
        let h8 = h7 + number_bytes(self.matrix);
        let h9 = h8 + u32_bytes(unsigned32(self.width.0));
        let rest = 4 + Self::times_len(self.version);
        holds_both(data, at, h9, u32_bytes(unsigned32(self.height.0)));
        holds_both(data, at, h8, u32_bytes(unsigned32(self.width.0)));
        holds_both(data, at, h7, number_bytes(self.matrix));
        holds_both(data, at, h6, zero_bytes(2));
        holds_both(data, at, h5, u16_bytes(unsigned16(volume)));
        holds_both(data, at, h4, u16_bytes(unsigned16(self.alternate_group)));
        holds_both(data, at, h3, u16_bytes(unsigned16(self.layer)));
        holds_both(data, at, h2, zero_bytes(8));
        holds_both(data, at, h1, self.encode_times());
        holds_both(data, at, h0, u24_bytes(self.flags));
        self.times_read_back(data, at + 4);
        reads_back_u8(data, at, self.version);
        reads_back_u24(data, at + 1, self.flags);
        reads_back_i16(data, at + rest + 8, self.layer);
        reads_back_i16(data, at + rest + 10, self.alternate_group);
        reads_back_i16(data, at + rest + 12, volume);
        numbers_read_back(data, at + rest + 16, self.matrix);
        reads_back_i32(data, at + rest + 52, self.width.0);
        reads_back_i32(data, at + rest + 56, self.height.0);
        let got = Self::decode(data, at, self.encode().len() as int);
        assert(got is Some);
        assert(got->0.matrix =~= self.matrix);
    }

    /// A box of version 1 has the 64-bit times and duration that stand after
    /// the flags; a box of version 0 has the 32-bit ones.
    pub proof fn version_selects_width(data: Seq<u8>, at: int, size: int)
        requires
            Self::decode(data, at, size) is Some,
        ensures
            ({
                let b = Self::decode(data, at, size)->0;
                &&& b.version == u8_at(data, at)
                &&& b.version == 1 ==> {
                    &&& b.creation_time.0 == be_u64(data, at + 4)
                    &&& b.modification_time.0 == be_u64(data, at + 12)
                    &&& b.track_id == be_u32(data, at + 20)
                    &&& b.duration == be_u64(data, at + 28)
                    &&& b.layer == be_i16(data, at + 44)
                    &&& size >= 96
                }
                &&& b.version == 0 ==> {
                    &&& b.creation_time.0 == be_u32(data, at + 4)
                    &&& b.modification_time.0 == be_u32(data, at + 8)
                    &&& b.track_id == be_u32(data, at + 12)
                    &&& b.duration == be_u32(data, at + 20)
                    &&& b.layer == be_i16(data, at + 32)
                    &&& size >= 84
                }
            }),
    {
    }

    /// The decoded fields as properties, in the order in which they are shown.
    pub open spec fn properties(self) -> Seq<PropertyView> {
        seq![
            plain("version"@, decimal(self.version as nat)),
            plain("flags"@, flags_text(self.flags)),
            plain("creation time"@, decimal(self.creation_time.unix_seconds())),
            plain("modification time"@, decimal(self.modification_time.unix_seconds())),
            plain("track ID"@, decimal(self.track_id as nat)),
            plain("duration"@, decimal(self.duration as nat)),
            plain("layer"@, signed_decimal(self.layer as int)),
            plain("alternate group"@, signed_decimal(self.alternate_group as int)),
            plain("volume"@, fixed_point(self.volume.0 as int)),
            plain("matrix"@, bracketed(number_texts(self.matrix))),
            plain("width"@, fixed_point(self.width.0 as int)),
            plain("height"@, fixed_point(self.height.0 as int)),
        ]
    }
}

impl TrackHeaderBox {
    /// A box with the fields given.
    pub fn new(
        version: u8,
        flags: u32,
        creation_time: Mp4DateTime,
        modification_time: Mp4DateTime,
        track_id: u32,
        duration: u64,
        layer: i16,
        alternate_group: i16,
        volume: Fixed16_16,
        matrix: Matrix,
        width: Fixed16_16,
        height: Fixed16_16,
    ) -> (b: TrackHeaderBox)
        ensures
            b@ == (TrackHeaderView {
                version,
                flags,
                creation_time,
                modification_time,
                track_id,
                duration,
                layer,
                alternate_group,
                volume,
                matrix: matrix@,
                width,
                height,
            }),
    {
        TrackHeaderBox {
            version,
            flags,
            creation_time,
            modification_time,
            track_id,
            duration,
            layer,
            alternate_group,
            volume,
            matrix,
            width,
            height,
        }
    }

    /// One line that says what kind of record this is.
    pub fn description(&self) -> (s: &'static str)
        ensures
            s@ == "Track Header Box"@,
    {
        "Track Header Box"
    }

    /// Appends the decoded fields to `properties`, in the order in which they are shown.
    pub fn fill_properties(&self, properties: &mut Vec<Property>)
        ensures
            property_views(final(properties)@) == property_views(old(properties)@) + self@.properties(),
    {
        push_plain(properties, "version", u64_to_string(self.version as u64));
        push_plain(properties, "flags", flags_string(self.flags));
        push_plain(properties, "creation time", self.creation_time.to_text());
        push_plain(properties, "modification time", self.modification_time.to_text());
        push_plain(properties, "track ID", u64_to_string(self.track_id as u64));
        push_plain(properties, "duration", u64_to_string(self.duration));
        push_plain(properties, "layer", i64_to_string(self.layer as i64));
        push_plain(properties, "alternate group", i64_to_string(self.alternate_group as i64));
        push_plain(properties, "volume", self.volume.to_text());
        push_plain(properties, "matrix", self.matrix.to_text());
        push_plain(properties, "width", self.width.to_text());
        push_plain(properties, "height", self.height.to_text());
        assert(property_views(properties@) =~= property_views(old(properties)@) + self@.properties());
    }
}

} // verus!
