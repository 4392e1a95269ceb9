//! The `mdhd` box: times, time scale, duration and language of a medium.

use crate::analyzer::isobmff::types::Mp4DateTime;
use crate::analyzer::{
    flags_string, flags_text, plain, property_views, push_plain, Property, PropertyView,
};
use crate::encoding::{
    holds, holds_both, reads_back_u16, reads_back_u24, reads_back_u32, reads_back_u64,
    reads_back_u8, u16_bytes, u24_bytes, u32_bytes, u64_bytes, zero_bytes,
};
use crate::reader::{be_u16, be_u24, be_u32, be_u64, readable, u8_at};
use crate::text::{concat3, decimal, u64_to_string};
use vstd::prelude::*;

verus! {

/// The decoded fields of an `mdhd` box.
#[derive(Debug)]
pub struct MediaHeaderBox {
    version: u8,
    flags: u32,
    creation_time: Mp4DateTime,
    modification_time: Mp4DateTime,
    timescale: u32,
    duration: u64,
    language: String,
}

/// Mathematical value of a [`MediaHeaderBox`].
pub struct MediaHeaderView {
    pub version: u8,
    pub flags: u32,
    pub creation_time: Mp4DateTime,
    pub modification_time: Mp4DateTime,
    pub timescale: u32,
    pub duration: u64,
    pub language: Seq<char>,
}

impl View for MediaHeaderBox {
    type V = MediaHeaderView;

    closed spec fn view(&self) -> MediaHeaderView {
        MediaHeaderView {
            version: self.version,
            flags: self.flags,
            creation_time: self.creation_time,
            modification_time: self.modification_time,
            timescale: self.timescale,
            duration: self.duration,
            language: self.language@,
        }
    }
}

/// The character of one five-bit field of a language code: the field plus
/// 0x60.
pub open spec fn language_letter(field: int) -> char {
    ((field + 0x60) as u8) as char
}

/// The three characters of a packed language code: three five-bit fields,
/// the first in the highest bits.
pub open spec fn language_text(packed: u16) -> Seq<char> {
    seq![
        language_letter((packed as int / 1024) % 32),
        language_letter((packed as int / 32) % 32),
        language_letter(packed as int % 32),
    ]
}

/// The packed code of a language text of three characters: the inverse of
/// [`language_text`] on the texts that it yields.
pub open spec fn packed_language(language: Seq<char>) -> u16 {
    ((language[0] as int - 0x60) * 1024 + (language[1] as int - 0x60) * 32 + (language[2] as int - 0x60)) as u16
}

/// A language text of three characters between U+0060 and U+007F is the text
/// of its packed code.
pub proof fn packed_language_unpacks(language: Seq<char>)
    requires
        language.len() == 3,
        forall|i: int| 0 <= i < 3 ==> 0x60 <= (#[trigger] language[i]) as int <= 0x7f,
    ensures
        language_text(packed_language(language)) == language,
{
    let a = language[0] as int - 0x60;
    let b = language[1] as int - 0x60;
    let c = language[2] as int - 0x60;
    let packed = packed_language(language);
    assert(0 <= a < 32 && 0 <= b < 32 && 0 <= c < 32);
    assert(packed == a * 1024 + b * 32 + c);
    assert((a * 1024 + b * 32 + c) / 1024 == a);
    assert(((a * 1024 + b * 32 + c) / 32) % 32 == b);
    assert((a * 1024 + b * 32 + c) % 32 == c);
    assert(language_letter(a) == language[0]);
    assert(language_letter(b) == language[1]);
    assert(language_letter(c) == language[2]);
    assert(language_text(packed) =~= language);
}

/// The one-character text of a five-bit field of a language code.
fn language_letter_str(field: u8) -> (s: &'static str)
    requires
        field < 32,
    ensures
        s@ == seq![language_letter(field as int)],
{
    proof {
        reveal_strlit("`");
        reveal_strlit("a");
        reveal_strlit("b");
        reveal_strlit("c");
        reveal_strlit("d");
        reveal_strlit("e");
        reveal_strlit("f");
        reveal_strlit("g");
        reveal_strlit("h");
        reveal_strlit("i");
        reveal_strlit("j");
        reveal_strlit("k");
        reveal_strlit("l");
        reveal_strlit("m");
        reveal_strlit("n");
        reveal_strlit("o");
        reveal_strlit("p");
        reveal_strlit("q");
        reveal_strlit("r");
        reveal_strlit("s");
        reveal_strlit("t");
        reveal_strlit("u");
        reveal_strlit("v");
        reveal_strlit("w");
        reveal_strlit("x");
        reveal_strlit("y");
        reveal_strlit("z");
        reveal_strlit("{");
        reveal_strlit("|");
        reveal_strlit("}");
        reveal_strlit("~");
        reveal_strlit("\u{7f}");
    }
    let s: &'static str = match field {
        0 => "`",
        1 => "a",
        2 => "b",
        3 => "c",
        4 => "d",
        5 => "e",
        6 => "f",
        7 => "g",
        8 => "h",
        9 => "i",
        10 => "j",
        11 => "k",
        12 => "l",
        13 => "m",
        14 => "n",
        15 => "o",
        16 => "p",
        17 => "q",
        18 => "r",
        19 => "s",
        20 => "t",
        21 => "u",
        22 => "v",
        23 => "w",
        24 => "x",
        25 => "y",
        26 => "z",
        27 => "{",
        28 => "|",
        29 => "}",
        30 => "~",
        _ => "\u{7f}",
    };
    assert(s@ =~= seq![language_letter(field as int)]);
    s
}

/// The text of a packed language code.
pub fn language_string(packed: u16) -> (s: String)
    ensures
        s@ == language_text(packed),
{
    let first: u8 = ((packed / 1024) % 32) as u8;
    let second: u8 = ((packed / 32) % 32) as u8;
    let third: u8 = (packed % 32) as u8;
    let s = concat3(
        language_letter_str(first),
        language_letter_str(second),
        language_letter_str(third),
    );
    assert(s@ =~= language_text(packed));
    s
}

impl MediaHeaderView {
    /// Length of the times, time scale and duration: 64-bit times and
    /// duration in version 1, 32-bit ones otherwise.
    pub open spec fn times_len(version: u8) -> int {
        if version == 1 {
            28
        } else {
            16
        }
    }

    /// Length of all the fields of the box; the last two bytes of them are
    /// passed over, not read.
    pub open spec fn fields_len(version: u8) -> int {
        4 + Self::times_len(version) + 4
    }

    /// The box read from a payload of `size` bytes at offset `at`.
    pub open spec fn decode(data: Seq<u8>, at: int, size: int) -> Option<MediaHeaderView> {
        let version = u8_at(data, at);
        let rest = at + 4 + Self::times_len(version);
        if readable(data, at, 4) && size >= Self::fields_len(version) && readable(
            data,
            at,
            Self::fields_len(version) - 2,
        ) {
            Some(
                MediaHeaderView {
                    version,
                    flags: be_u24(data, at + 1),
                    creation_time: Mp4DateTime(
                        if version == 1 {
                            be_u64(data, at + 4)
                        } else {
                            be_u32(data, at + 4) as u64
                        },
                    ),
                    modification_time: Mp4DateTime(
                        if version == 1 {
                            be_u64(data, at + 12)
                        } else {
                            be_u32(data, at + 8) as u64
                        },
                    ),
                    timescale: if version == 1 {
                        be_u32(data, at + 20)
                    } else {
                        be_u32(data, at + 12)
                    },
                    duration: if version == 1 {
                        be_u64(data, at + 24)
                    } else {
                        be_u32(data, at + 16) as u64
                    },
                    language: language_text(be_u16(data, rest)),
                },
            )
        } else {
            None
        }
    }

    /// Whether the box can be written down: its version is 0 or 1, its flags
    /// fit in 24 bits, its times and duration fit in 32 bits in version 0, and
    /// its language is three characters between U+0060 and U+007F.
    pub open spec fn encodable(self) -> bool {
        &&& self.version == 0 || self.version == 1
        &&& self.flags < 0x100_0000
        &&& self.version == 0 ==> self.creation_time.0 <= u32::MAX && self.modification_time.0 <= u32::MAX
            && self.duration <= u32::MAX
        &&& self.language.len() == 3
        &&& forall|i: int| 0 <= i < 3 ==> 0x60 <= (#[trigger] self.language[i]) as int <= 0x7f
    }

    /// The times, the time scale and the duration as bytes.
    pub open spec fn encode_times(self) -> Seq<u8> {
        if self.version == 1 {
            u64_bytes(self.creation_time.0) + u64_bytes(self.modification_time.0) + u32_bytes(self.timescale)
                + u64_bytes(self.duration)
        } else {
            u32_bytes(self.creation_time.0 as u32) + u32_bytes(self.modification_time.0 as u32) + u32_bytes(
                self.timescale,
            ) + u32_bytes(self.duration as u32)
        }
    }

    /// The payload that holds the box: its fields in their order, then two
    /// zero bytes.
    pub open spec fn encode(self) -> Seq<u8> {
        seq![self.version] + u24_bytes(self.flags) + self.encode_times() + u16_bytes(
            packed_language(self.language),
        ) + zero_bytes(2)
    }

    /// The times, time scale and duration that stand in `data` are read back.
    proof fn times_read_back(self, data: Seq<u8>, at: int)
        requires
            self.encodable(),
            holds(data, at, self.encode_times()),
        ensures
            self.encode_times().len() == Self::times_len(self.version),
            readable(data, at, Self::times_len(self.version)),
            self.version == 1 ==> be_u64(data, at) == self.creation_time.0 && be_u64(data, at + 8)
                == self.modification_time.0 && be_u32(data, at + 16) == self.timescale && be_u64(data, at + 20)
                == self.duration,
            self.version == 0 ==> be_u32(data, at) == self.creation_time.0 && be_u32(data, at + 4)
                == self.modification_time.0 && be_u32(data, at + 8) == self.timescale && be_u32(data, at + 12)
                == self.duration,
    {
        if self.version == 1 {
            let a = u64_bytes(self.creation_time.0);
            let b = u64_bytes(self.modification_time.0);
            let c = u32_bytes(self.timescale);
            let d = u64_bytes(self.duration);
            holds_both(data, at, a + b + c, d);
            holds_both(data, at, a + b, c);
            holds_both(data, at, a, b);
            reads_back_u64(data, at, self.creation_time.0);
            reads_back_u64(data, at + 8, self.modification_time.0);
            reads_back_u32(data, at + 16, self.timescale);
            reads_back_u64(data, at + 20, self.duration);
        } else {
            let a = u32_bytes(self.creation_time.0 as u32);
            let b = u32_bytes(self.modification_time.0 as u32);
            let c = u32_bytes(self.timescale);
            let d = u32_bytes(self.duration as u32);
            holds_both(data, at, a + b + c, d);
            holds_both(data, at, a + b, c);
            holds_both(data, at, a, b);
            reads_back_u32(data, at, self.creation_time.0 as u32);
            reads_back_u32(data, at + 4, self.modification_time.0 as u32);
            reads_back_u32(data, at + 8, self.timescale);
            reads_back_u32(data, at + 12, self.duration as u32);
        }
    }

    /// Decoding the bytes that a box was written down as gives the box back.
    pub proof fn decode_inverts_encode(self, data: Seq<u8>, at: int)
        requires
            self.encodable(),
            holds(data, at, self.encode()),
        ensures
            Self::decode(data, at, self.encode().len() as int) == Some(self),
    {
        let packed = packed_language(self.language);
        let h0 = seq![self.version];
        let h1 = h0 + u24_bytes(self.flags);
        let h2 = h1 + self.encode_times();
        let h3 = h2 + u16_bytes(packed);
        let rest = 4 + Self::times_len(self.version);
        holds_both(data, at, h3, zero_bytes(2));
        holds_both(data, at, h2, u16_bytes(packed));
        holds_both(data, at, h1, self.encode_times());
        holds_both(data, at, h0, u24_bytes(self.flags));
        self.times_read_back(data, at + 4);
        reads_back_u8(data, at, self.version);
        reads_back_u24(data, at + 1, self.flags);
        reads_back_u16(data, at + rest, packed);
        packed_language_unpacks(self.language);
    }

    /// A box of version 1 has the 64-bit times and duration that stand after
    /// the flags; a box of version 0 has the 32-bit ones.
    pub proof fn version_selects_width(data: Seq<u8>, at: int, size: int)
        requires
            Self::decode(data, at, size) is Some,
        ensures
            ({
                let b = Self::decode(data, at, size)->0;
                &&& b.version == u8_at(data, at)
                &&& b.version == 1 ==> {
                    &&& b.creation_time.0 == be_u64(data, at + 4)
                    &&& b.modification_time.0 == be_u64(data, at + 12)
                    &&& b.timescale == be_u32(data, at + 20)
                    &&& b.duration == be_u64(data, at + 24)
                    &&& b.language == language_text(be_u16(data, at + 32))
                    &&& size >= 36
                }
                &&& b.version == 0 ==> {
                    &&& b.creation_time.0 == be_u32(data, at + 4)
                    &&& b.modification_time.0 == be_u32(data, at + 8)
                    &&& b.timescale == be_u32(data, at + 12)
                    &&& b.duration == be_u32(data, at + 16)
                    &&& b.language == language_text(be_u16(data, at + 20))
                    &&& size >= 24
                }
            }),
    {
    }

    /// The decoded fields as properties, in the order in which they are shown.
    pub open spec fn properties(self) -> Seq<PropertyView> {
        seq![
            plain("version"@, decimal(self.version as nat)),
            plain("flags"@, flags_text(self.flags)),
            plain("creation_time"@, decimal(self.creation_time.unix_seconds())),
            plain("modification_time"@, decimal(self.modification_time.unix_seconds())),
            plain("timescale"@, decimal(self.timescale as nat)),
            plain("duration"@, decimal(self.duration as nat)),
            plain("language"@, self.language),
        ]
    }
}

impl MediaHeaderBox {
    /// A box with the fields given.
    pub fn new(
        version: u8,
        flags: u32,
        creation_time: Mp4DateTime,
        modification_time: Mp4DateTime,
        timescale: u32,
        duration: u64,
        language: String,
    ) -> (b: MediaHeaderBox)
        ensures
            b@ == (MediaHeaderView {
                version,
                flags,
                creation_time,
                modification_time,
                timescale,
                duration,
                language: language@,
            }),
    {
        MediaHeaderBox {
            version,
            flags,
            creation_time,
            modification_time,
            timescale,
            duration,
            language,
        }
    }

    /// One line that says what kind of record this is.
    pub fn description(&self) -> (s: &'static str)
        ensures
            s@ == "Media Header Box"@,
    {
        "Media Header Box"
    }

    /// Appends the decoded fields to `properties`, in the order in which they are shown.
    pub fn fill_properties(&self, properties: &mut Vec<Property>)
        ensures
            property_views(final(properties)@) == property_views(old(properties)@) + self@.properties(),
    {
        push_plain(properties, "version", u64_to_string(self.version as u64));
        push_plain(properties, "flags", flags_string(self.flags));
        push_plain(properties, "creation_time", self.creation_time.to_text());
        push_plain(properties, "modification_time", self.modification_time.to_text());
        push_plain(properties, "timescale", u64_to_string(self.timescale as u64));
        push_plain(properties, "duration", u64_to_string(self.duration));
        push_plain(properties, "language", self.language.clone());
        assert(property_views(properties@) =~= property_views(old(properties)@) + self@.properties());
    }
}

} // verus!
