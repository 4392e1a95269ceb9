//! The `mvhd` box: times, time scale, rate, volume and matrix of the movie.

use crate::analyzer::isobmff::types::{
    number_bytes, number_texts, numbers_read_back, Fixed16_16, Matrix, Mp4DateTime,
};
use crate::analyzer::{
    flags_string, flags_text, plain, property_views, push_plain, Property, PropertyView,
};
use crate::encoding::{
    holds, holds_both, reads_back_i32, reads_back_u16, reads_back_u24, reads_back_u32,
    reads_back_u64, reads_back_u8, u16_bytes, u24_bytes, u32_bytes, u64_bytes, unsigned32,
    zero_bytes,
};
use crate::reader::{be_i32, be_u16, be_u24, be_u32, be_u64, readable, u8_at};
use crate::text::{bracketed, decimal, fixed_point, u64_to_string};
use vstd::prelude::*;

verus! {

/// The decoded fields of an `mvhd` box.
#[derive(Debug)]
pub struct MovieHeaderBox {
    version: u8,
    flags: u32,
    creation_time: Mp4DateTime,
    modification_time: Mp4DateTime,
    timescale: u32,
    duration: u64,
    rate: Fixed16_16,
    volume: Fixed16_16,
    matrix: Matrix,
    next_track_id: u32,
}

/// Mathematical value of a [`MovieHeaderBox`].
pub struct MovieHeaderView {
    pub version: u8,
    pub flags: u32,
    pub creation_time: Mp4DateTime,
    pub modification_time: Mp4DateTime,
    pub timescale: u32,
    pub duration: u64,
    pub rate: Fixed16_16,
    pub volume: Fixed16_16,
    pub matrix: Seq<i32>,
    pub next_track_id: u32,
}

impl View for MovieHeaderBox {
    type V = MovieHeaderView;

    closed spec fn view(&self) -> MovieHeaderView {
        MovieHeaderView {
            version: self.version,
            flags: self.flags,
            creation_time: self.creation_time,
            modification_time: self.modification_time,
            timescale: self.timescale,
            duration: self.duration,
            rate: self.rate,
            volume: self.volume,
            matrix: self.matrix@,
            next_track_id: self.next_track_id,
        }
    }
}

impl MovieHeaderView {
    /// Length of the times, time scale and duration: 64-bit times and
    /// duration in version 1, 32-bit ones otherwise.
    pub open spec fn times_len(version: u8) -> int {
        if version == 1 {
            28
        } else {
            16
        }
    }

    /// Length of all the fields of the box.
    pub open spec fn fields_len(version: u8) -> int {
        4 + Self::times_len(version) + 80
    }

    /// The box read from a payload of `size` bytes at offset `at`.  The
    /// volume is an 8.8 fixed-point number, kept with sixteen fractional bits.
    pub open spec fn decode(data: Seq<u8>, at: int, size: int) -> Option<MovieHeaderView> {
        let version = u8_at(data, at);
        let rest = at + 4 + Self::times_len(version);
        if readable(data, at, 4) && size >= Self::fields_len(version) && readable(
            data,
            at,
            Self::fields_len(version),
        ) {
            Some(
                MovieHeaderView {
                    version,
                    flags: be_u24(data, at + 1),
                    creation_time: Mp4DateTime(
                        if version == 1 {
                            be_u64(data, at + 4)
                        } else {
                            be_u32(data, at + 4) as u64
                        },
                    ),
                    modification_time: Mp4DateTime(
                        if version == 1 {
                            be_u64(data, at + 12)
                        } else {
                            be_u32(data, at + 8) as u64
                        },
                    ),
                    timescale: if version == 1 {
                        be_u32(data, at + 20)
                    } else {
                        be_u32(data, at + 12)
                    },
                    duration: if version == 1 {
                        be_u64(data, at + 24)
                    } else {
                        be_u32(data, at + 16) as u64
                    },
                    rate: Fixed16_16(be_i32(data, rest)),
                    volume: Fixed16_16((be_u16(data, rest + 4) as int * 256) as i32),
                    matrix: Seq::new(9, |i: int| be_i32(data, rest + 16 + 4 * i)),
                    next_track_id: be_u32(data, rest + 76),
                },
            )
        } else {
            None
        }
    }

    /// A box of version 1 has the 64-bit times and duration that stand after
    /// the flags; a box of version 0 has the 32-bit ones.
    pub proof fn version_selects_width(data: Seq<u8>, at: int, size: int)
        requires
            Self::decode(data, at, size) is Some,
        ensures
            ({
                let b = Self::decode(data, at, size)->0;
                &&& b.version == u8_at(data, at)
                &&& b.version == 1 ==> {
                    &&& b.creation_time.0 == be_u64(data, at + 4)
                    &&& b.modification_time.0 == be_u64(data, at + 12)
                    &&& b.timescale == be_u32(data, at + 20)
                    &&& b.duration == be_u64(data, at + 24)
                    &&& b.rate.0 == be_i32(data, at + 32)
                    &&& size >= 112
                }
                &&& b.version == 0 ==> {
                    &&& b.creation_time.0 == be_u32(data, at + 4)
                    &&& b.modification_time.0 == be_u32(data, at + 8)
                    &&& b.timescale == be_u32(data, at + 12)
                    &&& b.duration == be_u32(data, at + 16)
                    &&& b.rate.0 == be_i32(data, at + 20)
                    &&& size >= 100
                }
            }),
    {
    }

    /// Whether the box can be written down: its version is 0 or 1, its flags
    /// fit in 24 bits, its times and duration fit in 32 bits in version 0, its
    /// volume is an 8.8 number that is not negative, and its matrix has nine
    /// numbers.
    pub open spec fn encodable(self) -> bool {
        &&& self.version == 0 || self.version == 1
        &&& self.flags < 0x100_0000
        &&& self.version == 0 ==> self.creation_time.0 <= u32::MAX && self.modification_time.0 <= u32::MAX
            && self.duration <= u32::MAX
        &&& 0 <= self.volume.0 < 0x100_0000 && self.volume.0 % 256 == 0
        &&& self.matrix.len() == 9
    }

    /// The times, the time scale and the duration as bytes.
    pub open spec fn encode_times(self) -> Seq<u8> {
        if self.version == 1 {
            u64_bytes(self.creation_time.0) + u64_bytes(self.modification_time.0) + u32_bytes(self.timescale)
                + u64_bytes(self.duration)
        } else {
            u32_bytes(self.creation_time.0 as u32) + u32_bytes(self.modification_time.0 as u32) + u32_bytes(
                self.timescale,
            ) + u32_bytes(self.duration as u32)
        }
    }

    /// The payload that holds the box: its fields in their order, with zero
    /// bytes where the layout leaves room.
    pub open spec fn encode(self) -> Seq<u8> {
        seq![self.version] + u24_bytes(self.flags) + self.encode_times() + u32_bytes(unsigned32(self.rate.0))
            + u16_bytes((self.volume.0 / 256) as u16) + zero_bytes(10) + number_bytes(self.matrix)
            + zero_bytes(24) + u32_bytes(self.next_track_id)
    }

    /// The times, time scale and duration that stand in `data` are read back.
    #[verifier::rlimit(40)]
    proof fn times_read_back(self, data: Seq<u8>, at: int)
        requires
            self.encodable(),
            holds(data, at, self.encode_times()),
        ensures
            self.encode_times().len() == Self::times_len(self.version),
            readable(data, at, Self::times_len(self.version)),
            self.version == 1 ==> be_u64(data, at) == self.creation_time.0 && be_u64(data, at + 8)
                == self.modification_time.0 && be_u32(data, at + 16) == self.timescale && be_u64(data, at + 20)
                == self.duration,
            self.version == 0 ==> be_u32(data, at) == self.creation_time.0 && be_u32(data, at + 4)
                == self.modification_time.0 && be_u32(data, at + 8) == self.timescale && be_u32(data, at + 12)
                == self.duration,
    {
        if self.version == 1 {
            let a = u64_bytes(self.creation_time.0);
            let b = u64_bytes(self.modification_time.0);
            let c = u32_bytes(self.timescale);
            let d = u64_bytes(self.duration);
            holds_both(data, at, a + b + c, d);
            holds_both(data, at, a + b, c);
            holds_both(data, at, a, b);
            reads_back_u64(data, at, self.creation_time.0);
            reads_back_u64(data, at + 8, self.modification_time.0);
            reads_back_u32(data, at + 16, self.timescale);
            reads_back_u64(data, at + 20, self.duration);
        } else {
            let a = u32_bytes(self.creation_time.0 as u32);
            let b = u32_bytes(self.modification_time.0 as u32);
            let c = u32_bytes(self.timescale);
            let d = u32_bytes(self.duration as u32);
            holds_both(data, at, a + b + c, d);
            holds_both(data, at, a + b, c);
            holds_both(data, at, a, b);
            reads_back_u32(data, at, self.creation_time.0 as u32);
            reads_back_u32(data, at + 4, self.modification_time.0 as u32);
            reads_back_u32(data, at + 8, self.timescale);
            reads_back_u32(data, at + 12, self.duration as u32);
        }
    }

    /// Decoding the bytes that a box was written down as gives the box back.
    #[verifier::rlimit(40)]
    pub proof fn decode_inverts_encode(self, data: Seq<u8>, at: int)
        requires
            self.encodable(),
            holds(data, at, self.encode()),
        ensures
            Self::decode(data, at, self.encode().len() as int) == Some(self),
    {
        let h0 = seq![self.version];
        let h1 = h0 + u24_bytes(self.flags);
        let h2 = h1 + self.encode_times();
        let h3 = h2 + u32_bytes(unsigned32(self.rate.0));
        let h4 = h3 + u16_bytes((self.volume.0 / 256) as u16);
        let h5 = h4 + zero_bytes(10);
        let h6 = h5 + number_bytes(self.matrix);
        let h7 = h6 + zero_bytes(24);
        let rest = 4 + Self::times_len(self.version);
        holds_both(data, at, h7, u32_bytes(self.next_track_id));
        holds_both(data, at, h6, zero_bytes(24));
        holds_both(data, at, h5, number_bytes(self.matrix));
        holds_both(data, at, h4, zero_bytes(10));
        holds_both(data, at, h3, u16_bytes((self.volume.0 / 256) as u16));
        holds_both(data, at, h2, u32_bytes(unsigned32(self.rate.0)));
        holds_both(data, at, h1, self.encode_times());
        holds_both(data, at, h0, u24_bytes(self.flags));
        self.times_read_back(data, at + 4);
        reads_back_u8(data, at, self.version);
        reads_back_u24(data, at + 1, self.flags);
        reads_back_i32(data, at + rest, self.rate.0);
        reads_back_u16(data, at + rest + 4, (self.volume.0 / 256) as u16);
        numbers_read_back(data, at + rest + 16, self.matrix);
        reads_back_u32(data, at + rest + 76, self.next_track_id);
        let got = Self::decode(data, at, self.encode().len() as int);
        assert(got is Some);
        assert(got->0.matrix =~= self.matrix);
    }

    /// The decoded fields as properties, in the order in which they are shown.
    pub open spec fn properties(self) -> Seq<PropertyView> {
        seq![
            plain("version"@, decimal(self.version as nat)),
            plain("flags"@, flags_text(self.flags)),
            plain("creation time"@, decimal(self.creation_time.unix_seconds())),
            plain("modification time"@, decimal(self.modification_time.unix_seconds())),
            plain("timescale"@, decimal(self.timescale as nat)),
            plain("duration"@, decimal(self.duration as nat)),
            plain("rate"@, fixed_point(self.rate.0 as int)),
            plain("volume"@, fixed_point(self.volume.0 as int)),
            plain("matrix"@, bracketed(number_texts(self.matrix))),
            plain("next track ID"@, decimal(self.next_track_id as nat)),
        ]
    }
}

impl MovieHeaderBox {
    /// A box with the fields given.
    pub fn new(
        version: u8,
        flags: u32,
        creation_time: Mp4DateTime,
        modification_time: Mp4DateTime,
        timescale: u32,
        duration: u64,
        rate: Fixed16_16,
        volume: Fixed16_16,
        matrix: Matrix,
        next_track_id: u32,
    ) -> (b: MovieHeaderBox)
        ensures
            b@ == (MovieHeaderView {
                version,
                flags,
                creation_time,
                modification_time,
                timescale,
                duration,
                rate,
                volume,
                matrix: matrix@,
                next_track_id,
            }),
    {
        MovieHeaderBox {
            version,
            flags,
            creation_time,
            modification_time,
            timescale,
            duration,
            rate,
            volume,
            matrix,
            next_track_id,
        }
    }

    /// One line that says what kind of record this is.
    pub fn description(&self) -> (s: &'static str)
        ensures
            s@ == "Movie Header Box"@,
    {
        "Movie Header Box"
    }

    /// Appends the decoded fields to `properties`, in the order in which they are shown.
    pub fn fill_properties(&self, properties: &mut Vec<Property>)
        ensures
            property_views(final(properties)@) == property_views(old(properties)@) + self@.properties(),
    {
        push_plain(properties, "version", u64_to_string(self.version as u64));
        push_plain(properties, "flags", flags_string(self.flags));
        push_plain(properties, "creation time", self.creation_time.to_text());
        push_plain(properties, "modification time", self.modification_time.to_text());
        push_plain(properties, "timescale", u64_to_string(self.timescale as u64));
        push_plain(properties, "duration", u64_to_string(self.duration));
        push_plain(properties, "rate", self.rate.to_text());
        push_plain(properties, "volume", self.volume.to_text());
        push_plain(properties, "matrix", self.matrix.to_text());
        push_plain(properties, "next track ID", u64_to_string(self.next_track_id as u64));
        assert(property_views(properties@) =~= property_views(old(properties)@) + self@.properties());
    }
}

} // verus!
