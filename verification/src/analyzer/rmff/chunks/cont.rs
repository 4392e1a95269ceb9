//! The `CONT` chunk: title, author, copyright and comment of the file.

use crate::analyzer::{plain, property_views, push_plain, Property, PropertyView};
use crate::error::{IoErrorKind, MediaErrorView};
use crate::encoding::{
    ends_without_nul, holds, holds_both, reads_back_text, reads_back_u16, u16_bytes,
};
use crate::reader::{be_u16, bytes_at, readable};
use crate::text::without_trailing_nuls;
use vstd::prelude::*;
use vstd::utf8::{decode_utf8, encode_utf8, valid_utf8};

verus! {

/// The decoded fields of a `CONT` chunk.
#[derive(Debug)]
pub struct ContChunk {
    title: String,
    author: String,
    copyright: String,
    comment: String,
}

/// Mathematical value of a [`ContChunk`].
pub struct ContView {
    pub title: Seq<char>,
    pub author: Seq<char>,
    pub copyright: Seq<char>,
    pub comment: Seq<char>,
}

impl View for ContChunk {
    type V = ContView;

    closed spec fn view(&self) -> ContView {
        ContView {
            title: self.title@,
            author: self.author@,
            copyright: self.copyright@,
            comment: self.comment@,
        }
    }
}

/// The text of the `len` bytes at offset `at`, without the zero bytes at their
/// end: an end-of-file error where the bytes are not there, an invalid-data
/// error where they are not valid UTF-8.
pub open spec fn strict_text(data: Seq<u8>, at: int, len: int) -> Result<Seq<char>, MediaErrorView> {
    let raw = without_trailing_nuls(bytes_at(data, at, len));
    if !readable(data, at, len) {
        Err(MediaErrorView::Io(IoErrorKind::UnexpectedEof))
    } else if !valid_utf8(raw) {
        Err(MediaErrorView::Io(IoErrorKind::InvalidData))
    } else {
        Ok(decode_utf8(raw))
    }
}

/// Whether a text can be written down behind a length of at most `limit`: its
/// bytes are no more than that and do not end with a zero byte.
pub open spec fn writable_text(text: Seq<char>, limit: int) -> bool {
    encode_utf8(text).len() <= limit && ends_without_nul(encode_utf8(text))
}

/// A text that can be written down and whose bytes stand in `data` is read
/// back by strict decoding.
pub proof fn strict_text_reads_back(data: Seq<u8>, at: int, text: Seq<char>)
    requires
        ends_without_nul(encode_utf8(text)),
        holds(data, at, encode_utf8(text)),
    ensures
        strict_text(data, at, encode_utf8(text).len() as int) == Ok::<Seq<char>, MediaErrorView>(text),
{
    reads_back_text(data, at, text);
    assert(without_trailing_nuls(encode_utf8(text)) == encode_utf8(text));
}

/// The property `name` = `value`, unless the value is empty.
pub open spec fn unless_empty(name: Seq<char>, value: Seq<char>) -> Seq<PropertyView> {
    if value.len() == 0 {
        Seq::empty()
    } else {
        seq![plain(name, value)]
    }
}

/// Appends the property `name` = `value`, unless the value is empty.
pub fn push_unless_empty(properties: &mut Vec<Property>, name: &str, value: &String)
    ensures
        property_views(final(properties)@) == property_views(old(properties)@) + unless_empty(name@, value@),
{
    if !value.as_str().is_empty() {
        push_plain(properties, name, value.clone());
    }
    assert(property_views(properties@) =~= property_views(old(properties)@) + unless_empty(name@, value@));
}

impl ContView {
    /// The chunk read from a payload of `size` bytes at offset `at`: the four
    /// 16-bit lengths of title, author, copyright and comment, then the four
    /// texts in that order.
    pub open spec fn decode(data: Seq<u8>, at: int, size: int) -> Result<ContView, MediaErrorView> {
        let title_len = be_u16(data, at) as int;
        let author_len = be_u16(data, at + 2) as int;
        let copyright_len = be_u16(data, at + 4) as int;
        let comment_len = be_u16(data, at + 6) as int;
        let author_at = at + 8 + title_len;
        let copyright_at = author_at + author_len;
        let comment_at = copyright_at + copyright_len;
        if size < 8 {
            Err(MediaErrorView::InvalidBoxSize)
        } else if !readable(data, at, 8) {
            Err(MediaErrorView::Io(IoErrorKind::UnexpectedEof))
        } else if size < 8 + title_len + author_len + copyright_len + comment_len {
            Err(MediaErrorView::InvalidBoxSize)
        } else {
            match strict_text(data, at + 8, title_len) {
                Err(e) => Err(e),
                Ok(title) => match strict_text(data, author_at, author_len) {
                    Err(e) => Err(e),
                    Ok(author) => match strict_text(data, copyright_at, copyright_len) {
                        Err(e) => Err(e),
                        Ok(copyright) => match strict_text(data, comment_at, comment_len) {
                            Err(e) => Err(e),
                            Ok(comment) => Ok(ContView { title, author, copyright, comment }),
                        },
                    },
                },
            }
        }
    }

    /// Whether the chunk can be written down: the bytes of each text are at
    /// most 65535 and do not end with a zero byte.
    pub open spec fn encodable(self) -> bool {
        &&& writable_text(self.title, 0xffff)
        &&& writable_text(self.author, 0xffff)
        &&& writable_text(self.copyright, 0xffff)
        &&& writable_text(self.comment, 0xffff)
    }

    /// The payload that holds the chunk: the four lengths, then the four
    /// texts.
    pub open spec fn encode(self) -> Seq<u8> {
        u16_bytes(encode_utf8(self.title).len() as u16) + u16_bytes(encode_utf8(self.author).len() as u16)
            + u16_bytes(encode_utf8(self.copyright).len() as u16) + u16_bytes(
            encode_utf8(self.comment).len() as u16,
        ) + encode_utf8(self.title) + encode_utf8(self.author) + encode_utf8(self.copyright) + encode_utf8(
            self.comment,
        )
    }

    /// Decoding the bytes that a chunk was written down as gives the chunk
    /// back.
    pub proof fn decode_inverts_encode(self, data: Seq<u8>, at: int)
        requires
            self.encodable(),
            holds(data, at, self.encode()),
        ensures
            Self::decode(data, at, self.encode().len() as int) == Ok::<ContView, MediaErrorView>(self),
    {
        let title = encode_utf8(self.title);
        let author = encode_utf8(self.author);
        let copyright = encode_utf8(self.copyright);
        let comment = encode_utf8(self.comment);
        let h0 = u16_bytes(title.len() as u16);
        let h1 = h0 + u16_bytes(author.len() as u16);
        let h2 = h1 + u16_bytes(copyright.len() as u16);
        let h3 = h2 + u16_bytes(comment.len() as u16);
        let h4 = h3 + title;
        let h5 = h4 + author;
        let h6 = h5 + copyright;
        holds_both(data, at, h6, comment);
        holds_both(data, at, h5, copyright);
        holds_both(data, at, h4, author);
        holds_both(data, at, h3, title);
        holds_both(data, at, h2, u16_bytes(comment.len() as u16));
        holds_both(data, at, h1, u16_bytes(copyright.len() as u16));
        holds_both(data, at, h0, u16_bytes(author.len() as u16));
        reads_back_u16(data, at, title.len() as u16);
        reads_back_u16(data, at + 2, author.len() as u16);
        reads_back_u16(data, at + 4, copyright.len() as u16);
        reads_back_u16(data, at + 6, comment.len() as u16);
        strict_text_reads_back(data, at + 8, self.title);
        strict_text_reads_back(data, at + 8 + title.len(), self.author);
        strict_text_reads_back(data, at + 8 + title.len() + author.len(), self.copyright);
        strict_text_reads_back(data, at + 8 + title.len() + author.len() + copyright.len(), self.comment);
    }

    /// The texts that are not empty, each under its name.
    pub open spec fn properties(self) -> Seq<PropertyView> {
        unless_empty("title"@, self.title) + unless_empty("author"@, self.author) + unless_empty(
            "copyright"@,
            self.copyright,
        ) + unless_empty("comment"@, self.comment)
    }
}

impl ContChunk {
    /// A chunk with the fields given.
    pub fn new(title: String, author: String, copyright: String, comment: String) -> (c: ContChunk)
        ensures
            c@ == (ContView { title: title@, author: author@, copyright: copyright@, comment: comment@ }),
    {
        ContChunk { title, author, copyright, comment }
    }

    /// One line that says what kind of record this is.
    pub fn description(&self) -> (s: &'static str)
        ensures
            s@ == "Content Description"@,
    {
        "Content Description"
    }

    /// Appends the decoded fields to `properties`, in the order in which they are shown.
    pub fn fill_properties(&self, properties: &mut Vec<Property>)
        ensures
            property_views(final(properties)@) == property_views(old(properties)@) + self@.properties(),
    {
        push_unless_empty(properties, "title", &self.title);
        push_unless_empty(properties, "author", &self.author);
        push_unless_empty(properties, "copyright", &self.copyright);
        push_unless_empty(properties, "comment", &self.comment);
        assert(property_views(properties@) =~= property_views(old(properties)@) + self@.properties());
    }
}

} // verus!
