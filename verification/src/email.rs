//! Send-to-Kindle: which formats Amazon accepts, and the message a book is
//! sent in. The SMTP exchange itself is done by the caller.

use vstd::prelude::*;
use crate::text::{chars_of, extend_str, lowercase, str_eq, string_from_str, string_of, to_lowercase};

verus! {

/// SMTP configuration for outbound email.
#[derive(Debug, Clone)]
pub struct EmailConfig {
    pub smtp_host: String,
    pub smtp_port: u16,
    pub smtp_user: String,
    pub smtp_password: String,
    pub from_address: String,
}

/// The formats Send-to-Kindle accepts (lowercase).
pub open spec fn is_kindle_format(f: Seq<char>) -> bool {
    f == "epub"@ || f == "pdf"@ || f == "mobi"@
}

/// Check whether a format is supported for Send-to-Kindle (any letter case).
pub fn is_kindle_supported_format(format: &str) -> (r: bool)
    ensures
        r == is_kindle_format(lowercase(format@)),
{
    let l = to_lowercase(format);
    let s = l.as_str();
    str_eq(s, "epub") || str_eq(s, "pdf") || str_eq(s, "mobi")
}

/// The message refusing a format: `Format 'F' is not supported for
/// Send-to-Kindle. Supported: epub, pdf, mobi`.
pub fn unsupported_format_message(format: &str) -> (out: String)
    ensures
        out@ == "Format '"@ + format@ + "' is not supported for Send-to-Kindle. Supported: epub, pdf, mobi"@,
{
    let mut v = chars_of("Format '");
    extend_str(&mut v, format);
    extend_str(&mut v, "' is not supported for Send-to-Kindle. Supported: epub, pdf, mobi");
    string_of(&v)
}

/// The MIME type of the attachment for a lowercase format.
pub open spec fn kindle_mime_of(format_lower: Seq<char>) -> Seq<char> {
    if format_lower == "epub"@ {
        "application/epub+zip"@
    } else if format_lower == "pdf"@ {
        "application/pdf"@
    } else if format_lower == "mobi"@ {
        "application/x-mobipocket-ebook"@
    } else {
        "application/octet-stream"@
    }
}

/// The MIME type of the attachment for a lowercase format.
pub fn kindle_mime_type(format_lower: &str) -> (out: String)
    ensures
        out@ == kindle_mime_of(format_lower@),
{
    if str_eq(format_lower, "epub") {
        string_from_str("application/epub+zip")
    } else if str_eq(format_lower, "pdf") {
        string_from_str("application/pdf")
    } else if str_eq(format_lower, "mobi") {
        string_from_str("application/x-mobipocket-ebook")
    } else {
        string_from_str("application/octet-stream")
    }
}

/// The subject of the message: `Ironshelf: TITLE`.
pub fn kindle_subject(book_title: &str) -> (out: String)
    ensures
        out@ == "Ironshelf: "@ + book_title@,
{
    let mut v = chars_of("Ironshelf: ");
    extend_str(&mut v, book_title);
    string_of(&v)
}

/// The text part of the message.
pub fn kindle_body_text(book_title: &str) -> (out: String)
    ensures
        out@ == "Sent from Ironshelf: "@ + book_title@
            + "\n\nThis book was sent to your Kindle via Ironshelf's Send-to-Kindle feature."@,
{
    let mut v = chars_of("Sent from Ironshelf: ");
    extend_str(&mut v, book_title);
    extend_str(&mut v, "\n\nThis book was sent to your Kindle via Ironshelf's Send-to-Kindle feature.");
    string_of(&v)
}

} // verus!
