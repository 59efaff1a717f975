//! Send-to-Kindle requests: the Kindle address a user may store, and the
//! format a book is sent in.

use vstd::prelude::*;
use crate::email::is_kindle_format;
use crate::error::AppError;
use crate::model::Format;
use crate::text::{
    chars_of, ends_with, ends_with_str, eq_ignore_ascii_case, eq_ignore_ascii_case_exec,
    extend_str, lowercase, ostr, str_eq, string_from_str, string_of, to_lowercase, trim, trim_str,
};

verus! {

/// Body of `PUT /api/v1/users/me/kindle-email`.
pub struct SetKindleEmailRequest {
    pub kindle_email: String,
}

/// The stored Kindle address.
pub struct KindleEmailResponse {
    pub kindle_email: Option<String>,
}

/// Body of `POST /api/v1/books/{id}/send-to-kindle`.
pub struct SendToKindleRequest {
    /// Optional format override (e.g., "epub", "pdf", "mobi").
    pub format: Option<String>,
}

/// Check a Kindle address: trimmed, it must end with `@kindle.com` or
/// `@free.kindle.com` and have something before the `@`. `Ok` carries the
/// trimmed address.
pub fn validate_kindle_email(request: &SetKindleEmailRequest) -> (r: Result<String, AppError>)
    ensures
        ({
            let t = trim(request.kindle_email@);
            if !ends_with(t, "@kindle.com"@) && !ends_with(t, "@free.kindle.com"@) {
                r matches Err(e) && e matches AppError::BadRequest(m) && m@
                    == "Kindle email must end with @kindle.com or @free.kindle.com"@
            } else if t[0] == '@' {
                r matches Err(e) && e matches AppError::BadRequest(m) && m@
                    == "Invalid Kindle email address"@
            } else {
                r matches Ok(v) && v@ == t
            }
        }),
{
    let t = trim_str(request.kindle_email.as_str());
    if !ends_with_str(&t, "@kindle.com") && !ends_with_str(&t, "@free.kindle.com") {
        return Err(
            AppError::BadRequest(
                string_from_str("Kindle email must end with @kindle.com or @free.kindle.com"),
            ),
        );
    }
    proof {
        reveal_strlit("@kindle.com");
        reveal_strlit("@free.kindle.com");
    }
    assert(t.len() > 0);
    if t[0] == '@' {
        return Err(AppError::BadRequest(string_from_str("Invalid Kindle email address")));
    }
    Ok(string_of(&t))
}

/// Whether one of the formats has this kind, ignoring ASCII case.
pub open spec fn has_format(formats: Seq<Format>, kind: Seq<char>) -> bool {
    exists|i: int| 0 <= i < formats.len() && eq_ignore_ascii_case((#[trigger] formats[i]).kind@, kind)
}

/// Whether one of the formats has this kind, computed.
fn has_format_exec(formats: &Vec<Format>, kind: &str) -> (r: bool)
    ensures
        r == has_format(formats@, kind@),
{
    let mut i: usize = 0;
    while i < formats.len()
        invariant
            i <= formats.len(),
            forall|j: int| 0 <= j < i ==> !eq_ignore_ascii_case((#[trigger] formats@[j]).kind@, kind@),
        decreases formats.len() - i,
    {
        if eq_ignore_ascii_case_exec(formats[i].kind.as_str(), kind) {
            assert(eq_ignore_ascii_case(formats@[i as int].kind@, kind@));
            return true;
        }
        i = i + 1;
    }
    false
}

/// What becomes of a Send-to-Kindle format choice.
pub enum KindleChoice {
    /// The book is sent in this format.
    Send(Seq<char>),
    /// The requested format is not one Send-to-Kindle accepts.
    Unsupported,
    /// The book does not have the requested format.
    Missing,
    /// The book has none of the formats Send-to-Kindle accepts.
    NoneCompatible,
}

/// The format sent to a Kindle. A requested format must be one Send-to-Kindle
/// accepts (any letter case) and one the book has; it is sent lowercase.
/// Without a request, the first of epub, mobi, pdf that the book has.
pub open spec fn kindle_format_choice(formats: Seq<Format>, requested: Option<Seq<char>>) -> KindleChoice {
    match requested {
        Some(r) => if !is_kindle_format(lowercase(lowercase(r))) {
            KindleChoice::Unsupported
        } else if has_format(formats, lowercase(r)) {
            KindleChoice::Send(lowercase(r))
        } else {
            KindleChoice::Missing
        },
        None => if has_format(formats, "epub"@) {
            KindleChoice::Send("epub"@)
        } else if has_format(formats, "mobi"@) {
            KindleChoice::Send("mobi"@)
        } else if has_format(formats, "pdf"@) {
            KindleChoice::Send("pdf"@)
        } else {
            KindleChoice::NoneCompatible
        },
    }
}

/// Pick the best Kindle-compatible format of a book.
pub fn pick_kindle_format(available_formats: &Vec<Format>, requested: Option<&str>) -> (r: Result<
    String,
    AppError,
>)
    ensures
        match kindle_format_choice(
            available_formats@,
            match requested {
                Some(q) => Some(q@),
                None => None,
            },
        ) {
            KindleChoice::Send(f) => r matches Ok(v) && v@ == f,
            KindleChoice::Unsupported => r matches Err(e) && e matches AppError::BadRequest(m)
                && m@ == "Format '"@ + requested.unwrap()@
                + "' is not supported for Send-to-Kindle. Supported: epub, mobi, pdf"@,
            KindleChoice::Missing => r matches Err(e) && e matches AppError::NotFound(m) && m@
                == "Book does not have format '"@ + requested.unwrap()@ + "'"@,
            KindleChoice::NoneCompatible => r matches Err(e)
                && e matches AppError::UnprocessableEntity(m) && m@
                == "Book has no Kindle-compatible formats (epub, mobi, pdf)"@,
        },
{
    match requested {
        Some(q) => {
            let lower = to_lowercase(q);
            if !crate::email::is_kindle_supported_format(lower.as_str()) {
                let mut v = chars_of("Format '");
                extend_str(&mut v, q);
                extend_str(&mut v, "' is not supported for Send-to-Kindle. Supported: epub, mobi, pdf");
                return Err(AppError::BadRequest(string_of(&v)));
            }
            if has_format_exec(available_formats, lower.as_str()) {
                return Ok(lower);
            }
            let mut v = chars_of("Book does not have format '");
            extend_str(&mut v, q);
            extend_str(&mut v, "'");
            Err(AppError::NotFound(string_of(&v)))
        },
        None => {
            if has_format_exec(available_formats, "epub") {
                Ok(string_from_str("epub"))
            } else if has_format_exec(available_formats, "mobi") {
                Ok(string_from_str("mobi"))
            } else if has_format_exec(available_formats, "pdf") {
                Ok(string_from_str("pdf"))
            } else {
                Err(
                    AppError::UnprocessableEntity(
                        string_from_str("Book has no Kindle-compatible formats (epub, mobi, pdf)"),
                    ),
                )
            }
        },
    }
}

/// What sending needs before the book is looked up: SMTP configured on the
/// server, and a Kindle address stored for the user (which is returned).
pub fn check_send_to_kindle(smtp_configured: bool, kindle_email: Option<String>) -> (r: Result<
    String,
    AppError,
>)
    ensures
        !smtp_configured ==> (r matches Err(e) && e matches AppError::UnprocessableEntity(m) && m@
            == "SMTP is not configured on this server. Send-to-Kindle requires SMTP settings."@),
        smtp_configured && kindle_email is None ==> (r matches Err(e)
            && e matches AppError::BadRequest(m) && m@
            == "No Kindle email configured. Set your Kindle email first via PUT /api/v1/users/me/kindle-email"@),
        smtp_configured && kindle_email is Some ==> (r matches Ok(v) && Some(v@) == ostr(
            kindle_email,
        )),
{
    if !smtp_configured {
        return Err(
            AppError::UnprocessableEntity(
                string_from_str(
                    "SMTP is not configured on this server. Send-to-Kindle requires SMTP settings.",
                ),
            ),
        );
    }
    match kindle_email {
        Some(e) => Ok(e),
        None => Err(
            AppError::BadRequest(
                string_from_str(
                    "No Kindle email configured. Set your Kindle email first via PUT /api/v1/users/me/kindle-email",
                ),
            ),
        ),
    }
}

/// The index of the first format whose kind is `kind` ignoring ASCII case
/// (the case the format was chosen in), if any.
pub fn find_format(formats: &Vec<Format>, kind: &str) -> (r: Option<usize>)
    ensures
        r matches Some(i) ==> i < formats@.len() && eq_ignore_ascii_case(formats@[i as int].kind@, kind@)
            && forall|j: int| 0 <= j < i ==> !eq_ignore_ascii_case((#[trigger] formats@[j]).kind@, kind@),
        r is None <==> !has_format(formats@, kind@),
{
    let mut i: usize = 0;
    while i < formats.len()
        invariant
            i <= formats.len(),
            forall|j: int| 0 <= j < i ==> !eq_ignore_ascii_case((#[trigger] formats@[j]).kind@, kind@),
        decreases formats.len() - i,
    {
        if eq_ignore_ascii_case_exec(formats[i].kind.as_str(), kind) {
            assert(has_format(formats@, kind@)) by {
                assert(eq_ignore_ascii_case(formats@[i as int].kind@, kind@));
            }
            return Some(i);
        }
        i = i + 1;
    }
    None
}

/// A format that Send-to-Kindle chooses is found in the book's formats: the
/// file sent is always the one chosen.
pub proof fn lemma_chosen_format_is_found(formats: Seq<Format>, requested: Option<Seq<char>>)
    requires
        kindle_format_choice(formats, requested) matches KindleChoice::Send(_),
    ensures
        kindle_format_choice(formats, requested) matches KindleChoice::Send(f) && has_format(formats, f),
{
}

/// What Send-to-Kindle sends: always a format the book has (without a
/// request, one of epub, mobi, pdf). Without a request it prefers epub, then mobi, then pdf,
/// and reports no compatible format only when the book has none of them; a
/// request outside epub, mobi, pdf is refused as unsupported, and a
/// supported one the book lacks as missing.
pub proof fn lemma_kindle_choice_prefers_and_stays_supported(formats: Seq<Format>, requested: Option<Seq<char>>)
    ensures
        kindle_format_choice(formats, requested) matches KindleChoice::Send(f) ==> has_format(formats, f) && (
        requested is None ==> (f == "epub"@ || f == "mobi"@ || f == "pdf"@)),
        requested is None && has_format(formats, "epub"@) ==> kindle_format_choice(formats, requested)
            == KindleChoice::Send("epub"@),
        requested is None && !has_format(formats, "epub"@) && has_format(formats, "mobi"@) ==> kindle_format_choice(
            formats,
            requested,
        ) == KindleChoice::Send("mobi"@),
        requested is None && !has_format(formats, "epub"@) && !has_format(formats, "mobi"@) && has_format(
            formats,
            "pdf"@,
        ) ==> kindle_format_choice(formats, requested) == KindleChoice::Send("pdf"@),
        requested is None && !has_format(formats, "epub"@) && !has_format(formats, "mobi"@) && !has_format(
            formats,
            "pdf"@,
        ) ==> kindle_format_choice(formats, requested) == KindleChoice::NoneCompatible,
        match requested {
            Some(r) => if lowercase(lowercase(r)) == "epub"@ || lowercase(lowercase(r)) == "mobi"@ || lowercase(
                lowercase(r),
            ) == "pdf"@ {
                kindle_format_choice(formats, requested) == if has_format(formats, lowercase(r)) {
                    KindleChoice::Send(lowercase(r))
                } else {
                    KindleChoice::Missing
                }
            } else {
                kindle_format_choice(formats, requested) == KindleChoice::Unsupported
            },
            None => true,
        },
{
}

} // verus!
