//! File formats, recognised by their extension.
use crate::text::str_eq;
use vstd::prelude::*;

verus! {

/// The formats that the optimiser knows.
#[derive(Debug, PartialEq, Eq, Structural, Clone, Copy)]
pub enum ImageFormat {
    Png,
    Jpeg,
    Webp,
    Pdf,
    Unknown,
}

/// The full Unicode lowercase mapping of a text (`str::to_lowercase`).
pub uninterp spec fn unicode_lowercase(s: Seq<char>) -> Seq<char>;

/// Every character of the text is ASCII.
pub open spec fn is_ascii_text(s: Seq<char>) -> bool {
    forall|i: int| 0 <= i < s.len() ==> (#[trigger] s[i] as u32) < 128
}

/// The ASCII lowercase form of a character: `A` to `Z` become `a` to `z`.
pub open spec fn ascii_lower_char(c: char) -> char {
    if 65 <= (c as u32) && (c as u32) <= 90 {
        ((c as u32) + 32) as char
    } else {
        c
    }
}

/// The ASCII uppercase form of a character: `a` to `z` become `A` to `Z`.
pub open spec fn ascii_upper_char(c: char) -> char {
    if 97 <= (c as u32) && (c as u32) <= 122 {
        ((c as u32) - 32) as char
    } else {
        c
    }
}

/// A text with its ASCII letters in lowercase.
pub open spec fn ascii_lowercase(s: Seq<char>) -> Seq<char> {
    s.map_values(|c: char| ascii_lower_char(c))
}

/// A text with its ASCII letters in uppercase.
pub open spec fn ascii_uppercase(s: Seq<char>) -> Seq<char> {
    s.map_values(|c: char| ascii_upper_char(c))
}

/// `str::to_lowercase`: maps every character to its Unicode lowercase form (which may
/// be several characters). The mapping is named, not written out: its tables take
/// pages. On ASCII text it is the ASCII mapping (`A` to `Z` become `a` to `z`, every
/// other character stays), as the documentation of `str::to_ascii_lowercase` says.
#[verifier::external_body]
pub(crate) fn to_lowercase(s: &str) -> (r: String)
    ensures
        r@ == unicode_lowercase(s@),
        is_ascii_text(s@) ==> r@ == ascii_lowercase(s@),
{
    s.to_lowercase()
}

/// The format of an extension that is already in lowercase.
pub open spec fn format_of_lowercase(e: Seq<char>) -> ImageFormat {
    if e == seq!['p', 'n', 'g'] {
        ImageFormat::Png
    } else if e == seq!['j', 'p', 'g'] || e == seq!['j', 'p', 'e', 'g'] {
        ImageFormat::Jpeg
    } else if e == seq!['w', 'e', 'b', 'p'] {
        ImageFormat::Webp
    } else if e == seq!['p', 'd', 'f'] {
        ImageFormat::Pdf
    } else {
        ImageFormat::Unknown
    }
}

/// The format of an extension, in any case.
pub open spec fn format_of_extension(e: Seq<char>) -> ImageFormat {
    format_of_lowercase(unicode_lowercase(e))
}

/// The format of an extension that is already in lowercase: `png`, `jpg` or `jpeg`,
/// `webp`, `pdf`; anything else is `Unknown`.
pub fn format_from_lowercase(e: &str) -> (r: ImageFormat)
    ensures
        r == format_of_lowercase(e@),
{
    proof {
        reveal_strlit("png");
        reveal_strlit("jpg");
        reveal_strlit("jpeg");
        reveal_strlit("webp");
        reveal_strlit("pdf");
        assert("png"@ =~= seq!['p', 'n', 'g']);
        assert("jpg"@ =~= seq!['j', 'p', 'g']);
        assert("jpeg"@ =~= seq!['j', 'p', 'e', 'g']);
        assert("webp"@ =~= seq!['w', 'e', 'b', 'p']);
        assert("pdf"@ =~= seq!['p', 'd', 'f']);
    }
    if str_eq(e, "png") {
        ImageFormat::Png
    } else if str_eq(e, "jpg") || str_eq(e, "jpeg") {
        ImageFormat::Jpeg
    } else if str_eq(e, "webp") {
        ImageFormat::Webp
    } else if str_eq(e, "pdf") {
        ImageFormat::Pdf
    } else {
        ImageFormat::Unknown
    }
}

impl ImageFormat {
    /// The format of a file extension, compared after Unicode lowercasing.
    pub fn from_extension(extension: &str) -> (r: ImageFormat)
        ensures
            r == format_of_extension(extension@),
            is_ascii_text(extension@) ==> r == format_of_lowercase(ascii_lowercase(extension@)),
    {
        let lower = to_lowercase(extension);
        format_from_lowercase(lower.as_str())
    }
}

} // verus!
