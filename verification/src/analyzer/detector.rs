//! Which of the two container families a file belongs to, told from its
//! extension or from its first four bytes.

use crate::analyzer::isobmff::types::{code_of, BoxType};
use crate::error::{MediaError, MediaErrorView};
use crate::reader::bytes_at;
use crate::text::{bracketed, bracketed_string, decimal, string_views, u64_to_string};
use vstd::prelude::*;
use vstd::string::StringExecFns;

verus! {

/// How the family of a file is found.
#[derive(Debug, Clone, Copy, PartialEq, Eq, Structural)]
pub enum DetectionStrategy {
    /// By the extension of the file name.
    Extension,
    /// By the first bytes of the file.
    Content,
    /// By the extension and, where that tells nothing, by the first bytes.
    Auto,
}

/// The two container families.
#[derive(Debug, Clone, Copy, PartialEq, Eq, Structural)]
pub enum FileFormat {
    Isobmff,
    RealMedia,
}

/// Finds the family of a file with one strategy.
pub struct FormatDetector {
    strategy: DetectionStrategy,
}

/// What `str::to_lowercase` makes of a text.
pub uninterp spec fn lowercase_of(text: Seq<char>) -> Seq<char>;

/// `str::to_lowercase`.  Claims that the result is a function of the text
/// alone.
#[verifier::external_body]
pub(crate) fn to_lowercase(text: &str) -> (s: String)
    ensures
        s@ == lowercase_of(text@),
{
    text.to_lowercase()
}

/// The family that an extension in lower case stands for.
pub open spec fn format_of_extension(lowered: Seq<char>) -> Option<FileFormat> {
    if lowered == "mp4"@ || lowered == "mov"@ || lowered == "m4a"@ || lowered == "m4v"@ {
        Some(FileFormat::Isobmff)
    } else if lowered == "rm"@ || lowered == "rmvb"@ || lowered == "ra"@ {
        Some(FileFormat::RealMedia)
    } else {
        None
    }
}

/// The family that the four bytes at the start of a file stand for.
pub open spec fn format_of_magic(magic: Seq<u8>) -> Option<FileFormat> {
    if magic == code_of('.', 'R', 'M', 'F') {
        Some(FileFormat::RealMedia)
    } else if magic == code_of('f', 't', 'y', 'p') || magic == code_of('m', 'o', 'o', 'v') || magic
        == code_of('m', 'd', 'a', 't') || magic == code_of('f', 'r', 'e', 'e') || magic == code_of(
        'w',
        'i',
        'd',
        'e',
    ) || magic == code_of('s', 'k', 'i', 'p') {
        Some(FileFormat::Isobmff)
    } else {
        None
    }
}

/// The error for an extension that stands for no family.
pub open spec fn unknown_extension() -> MediaErrorView {
    MediaErrorView::UnsupportedFormat("Unknown file extension"@)
}

/// The first bytes of a content that tell its family: four, or all of them
/// where there are fewer.
pub open spec fn magic_of(content: Seq<u8>) -> Seq<u8> {
    if content.len() < 4 {
        content
    } else {
        bytes_at(content, 0, 4)
    }
}

/// The error for first bytes that stand for no family: the message names the
/// bytes in decimal.
pub open spec fn unknown_magic(magic: Seq<u8>) -> MediaErrorView {
    MediaErrorView::UnsupportedFormat(
        "Unknown magic number: "@ + bracketed(Seq::new(magic.len(), |i: int| decimal(magic[i] as nat))),
    )
}

/// What detection by extension finds for an extension already in lower case.
pub open spec fn by_lowered_extension(lowered: Option<Seq<char>>) -> Result<FileFormat, MediaErrorView> {
    match lowered {
        Some(e) => match format_of_extension(e) {
            Some(f) => Ok(f),
            None => Err(unknown_extension()),
        },
        None => Err(unknown_extension()),
    }
}

/// What detection by extension finds.
pub open spec fn by_extension(extension: Option<Seq<char>>) -> Result<FileFormat, MediaErrorView> {
    by_lowered_extension(
        match extension {
            Some(e) => Some(lowercase_of(e)),
            None => None,
        },
    )
}

/// What detection by content finds: the family that the first four bytes
/// stand for.  Bytes that stand for none, and so every content of fewer than
/// four bytes, are not supported.
pub open spec fn by_content(content: Seq<u8>) -> Result<FileFormat, MediaErrorView> {
    if content.len() < 4 {
        Err(unknown_magic(content))
    } else {
        match format_of_magic(magic_of(content)) {
            Some(f) => Ok(f),
            None => Err(unknown_magic(magic_of(content))),
        }
    }
}

/// Detection fails only with the error for a format that is not supported.
pub proof fn detection_fails_only_as_unsupported(
    strategy: DetectionStrategy,
    extension: Option<Seq<char>>,
    content: Seq<u8>,
)
    ensures
        detected(strategy, extension, content) matches Err(e) ==> e is UnsupportedFormat,
{
}

/// What detection with `strategy` finds.
pub open spec fn detected(strategy: DetectionStrategy, extension: Option<Seq<char>>, content: Seq<u8>) -> Result<
    FileFormat,
    MediaErrorView,
> {
    match strategy {
        DetectionStrategy::Extension => by_extension(extension),
        DetectionStrategy::Content => by_content(content),
        DetectionStrategy::Auto => match by_extension(extension) {
            Ok(f) => Ok(f),
            Err(_) => by_content(content),
        },
    }
}

/// The views of an optional text.
pub open spec fn text_view(text: Option<&str>) -> Option<Seq<char>> {
    match text {
        Some(t) => Some(t@),
        None => None,
    }
}

/// Whether the outcome `r` is the outcome `want`.
pub open spec fn is_outcome(r: Result<FileFormat, MediaError>, want: Result<FileFormat, MediaErrorView>) -> bool {
    match r {
        Ok(f) => want == Ok::<FileFormat, MediaErrorView>(f),
        Err(e) => want == Err::<FileFormat, MediaErrorView>(e@),
    }
}

/// The family for an extension already in lower case: `mp4`, `mov`, `m4a` and
/// `m4v` are box files, `rm`, `rmvb` and `ra` chunk files.
pub fn format_for_extension(lowered: Option<&str>) -> (r: Result<FileFormat, MediaError>)
    ensures
        is_outcome(r, by_lowered_extension(text_view(lowered))),
{
    match lowered {
        Some(e) => {
            let e = String::from_str(e);
            if e == String::from_str("mp4") || e == String::from_str("mov") || e == String::from_str("m4a")
                || e == String::from_str("m4v") {
                Ok(FileFormat::Isobmff)
            } else if e == String::from_str("rm") || e == String::from_str("rmvb") || e
                == String::from_str("ra") {
                Ok(FileFormat::RealMedia)
            } else {
                Err(MediaError::UnsupportedFormat(String::from_str("Unknown file extension")))
            }
        },
        None => Err(MediaError::UnsupportedFormat(String::from_str("Unknown file extension"))),
    }
}

impl FormatDetector {
    /// The strategy of the detector.
    pub closed spec fn strategy(&self) -> DetectionStrategy {
        self.strategy
    }

    /// A detector with the strategy given.
    pub fn new(strategy: DetectionStrategy) -> (d: FormatDetector)
        ensures
            d.strategy() == strategy,
    {
        FormatDetector { strategy }
    }

    /// Finds the family of a file from the extension of its name, if it has
    /// one, and its content, as the strategy says.
    pub fn detect_format(&self, extension: Option<&str>, content: &[u8]) -> (r: Result<FileFormat, MediaError>)
        ensures
            is_outcome(r, detected(self.strategy(), text_view(extension), content@)),
    {
        match self.strategy {
            DetectionStrategy::Extension => self.detect_by_extension(extension),
            DetectionStrategy::Content => self.detect_by_content(content),
            DetectionStrategy::Auto => {
                match self.detect_by_extension(extension) {
                    Ok(format) => Ok(format),
                    Err(_) => self.detect_by_content(content),
                }
            },
        }
    }

    /// Finds the family from the extension, whatever its case.
    pub fn detect_by_extension(&self, extension: Option<&str>) -> (r: Result<FileFormat, MediaError>)
        ensures
            is_outcome(r, by_extension(text_view(extension))),
    {
        match extension {
            Some(e) => {
                let lowered = to_lowercase(e);
                format_for_extension(Some(lowered.as_str()))
            },
            None => format_for_extension(None),
        }
    }

    /// Finds the family from the first four bytes of the content.
    pub fn detect_by_content(&self, content: &[u8]) -> (r: Result<FileFormat, MediaError>)
        ensures
            is_outcome(r, by_content(content@)),
    {
        if content.len() >= 4 {
            let magic = BoxType::new([content[0], content[1], content[2], content[3]]);
            proof {
                assert(magic@ =~= bytes_at(content@, 0, 4));
            }
            if magic.is('.', 'R', 'M', 'F') {
                return Ok(FileFormat::RealMedia);
            } else if magic.is('f', 't', 'y', 'p') || magic.is('m', 'o', 'o', 'v') || magic.is('m', 'd', 'a', 't')
                || magic.is('f', 'r', 'e', 'e') || magic.is('w', 'i', 'd', 'e') || magic.is('s', 'k', 'i', 'p') {
                return Ok(FileFormat::Isobmff);
            }
        }
        let shown: usize = if content.len() < 4 { content.len() } else { 4 };
        let mut parts: Vec<String> = Vec::new();
        let mut i: usize = 0;
        while i < shown
            invariant
                i <= shown <= content.len(),
                parts@.len() == i,
                forall|j: int| 0 <= j < i ==> parts@[j]@ == decimal(content@[j] as nat),
            decreases shown - i,
        {
            parts.push(u64_to_string(content[i] as u64));
            i = i + 1;
        }
        proof {
            let magic = magic_of(content@);
            assert(string_views(parts@) =~= Seq::new(magic.len(), |i: int| decimal(magic[i] as nat)));
        }
        let mut message = String::from_str("Unknown magic number: ");
        message.append(bracketed_string(&parts).as_str());
        Err(MediaError::UnsupportedFormat(message))
    }
}

} // verus!
