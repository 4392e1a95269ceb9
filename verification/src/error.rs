//! Error values shared by the byte cursor, the parsers and format detection.

use vstd::prelude::*;
use vstd::string::StringExecFns;

verus! {

/// What went wrong inside the byte source.
#[derive(Clone, Copy, Debug, PartialEq, Eq, Structural)]
pub enum IoErrorKind {
    /// Fewer bytes were left than the read asked for.
    UnexpectedEof,
    /// The bytes read are not the text they were expected to be.
    InvalidData,
    /// The position asked for cannot be represented.
    InvalidInput,
}

/// Failure of a parse or of format detection.
#[derive(Debug)]
pub enum MediaError {
    Io(IoErrorKind),
    InvalidBoxSize,
    InvalidBoxType(String),
    UnexpectedEof,
    Parse(String),
    InvalidFormat(String),
    UnsupportedFormat(String),
}

/// Mathematical value of a [`MediaError`].
pub enum MediaErrorView {
    Io(IoErrorKind),
    InvalidBoxSize,
    InvalidBoxType(Seq<char>),
    UnexpectedEof,
    Parse(Seq<char>),
    InvalidFormat(Seq<char>),
    UnsupportedFormat(Seq<char>),
}

impl View for MediaError {
    type V = MediaErrorView;

    open spec fn view(&self) -> MediaErrorView {
        match self {
            MediaError::Io(kind) => MediaErrorView::Io(*kind),
            MediaError::InvalidBoxSize => MediaErrorView::InvalidBoxSize,
            MediaError::InvalidBoxType(s) => MediaErrorView::InvalidBoxType(s@),
            MediaError::UnexpectedEof => MediaErrorView::UnexpectedEof,
            MediaError::Parse(s) => MediaErrorView::Parse(s@),
            MediaError::InvalidFormat(s) => MediaErrorView::InvalidFormat(s@),
            MediaError::UnsupportedFormat(s) => MediaErrorView::UnsupportedFormat(s@),
        }
    }
}

impl IoErrorKind {
    /// Text of the kind, as shown inside a message.
    pub open spec fn text(self) -> Seq<char> {
        match self {
            IoErrorKind::UnexpectedEof => "failed to fill whole buffer"@,
            IoErrorKind::InvalidData => "stream did not contain valid UTF-8"@,
            IoErrorKind::InvalidInput => "invalid seek to a negative or overflowing position"@,
        }
    }

    /// Text of the kind, as shown inside a message.
    pub fn description(&self) -> (s: &'static str)
        ensures
            s@ == self.text(),
    {
        match self {
            IoErrorKind::UnexpectedEof => "failed to fill whole buffer",
            IoErrorKind::InvalidData => "stream did not contain valid UTF-8",
            IoErrorKind::InvalidInput => "invalid seek to a negative or overflowing position",
        }
    }
}

impl MediaErrorView {
    /// The message of the error: a fixed prefix for its kind, then its detail.
    pub open spec fn message(self) -> Seq<char> {
        match self {
            MediaErrorView::Io(kind) => "IO error: "@ + kind.text(),
            MediaErrorView::InvalidBoxSize => "Invalid box size"@,
            MediaErrorView::InvalidBoxType(s) => "Invalid box type: "@ + s,
            MediaErrorView::UnexpectedEof => "Unexpected EOF"@,
            MediaErrorView::Parse(s) => "Parse error: "@ + s,
            MediaErrorView::InvalidFormat(s) => "Invalid format: "@ + s,
            MediaErrorView::UnsupportedFormat(s) => "Unsupported format: "@ + s,
        }
    }
}

impl MediaError {
    /// The message of the error.
    pub fn message(&self) -> (s: String)
        ensures
            s@ == self@.message(),
    {
        match self {
            MediaError::Io(kind) => {
                let mut s = String::from_str("IO error: ");
                s.append(kind.description());
                s
            },
            MediaError::InvalidBoxSize => String::from_str("Invalid box size"),
            MediaError::InvalidBoxType(d) => {
                let mut s = String::from_str("Invalid box type: ");
                s.append(d.as_str());
                s
            },
            MediaError::UnexpectedEof => String::from_str("Unexpected EOF"),
            MediaError::Parse(d) => {
                let mut s = String::from_str("Parse error: ");
                s.append(d.as_str());
                s
            },
            MediaError::InvalidFormat(d) => {
                let mut s = String::from_str("Invalid format: ");
                s.append(d.as_str());
                s
            },
            MediaError::UnsupportedFormat(d) => {
                let mut s = String::from_str("Unsupported format: ");
                s.append(d.as_str());
                s
            },
        }
    }
}

} // verus!
