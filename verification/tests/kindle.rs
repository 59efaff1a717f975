use ironshelf::email::{
    is_kindle_supported_format, kindle_body_text, kindle_mime_type, kindle_subject,
    unsupported_format_message,
};
use ironshelf::error::AppError;
use ironshelf::kindle::{
    check_send_to_kindle, find_format, pick_kindle_format, validate_kindle_email,
    SetKindleEmailRequest,
};
use ironshelf::model::Format;

fn formats(kinds: &[&str]) -> Vec<Format> {
    kinds
        .iter()
        .map(|k| Format { kind: k.to_string(), size: None, file_name: format!("book.{}", k) })
        .collect()
}

#[test]
fn kindle_addresses() {
    let v = |s: &str| validate_kindle_email(&SetKindleEmailRequest { kindle_email: s.to_string() });
    assert_eq!(v("  me@kindle.com ").ok(), Some("me@kindle.com".to_string()));
    assert_eq!(v("me@free.kindle.com").ok(), Some("me@free.kindle.com".to_string()));
    match v("me@gmail.com") {
        Err(AppError::BadRequest(m)) => {
            assert_eq!(m, "Kindle email must end with @kindle.com or @free.kindle.com")
        }
        _ => panic!("expected a bad request"),
    }
    match v("@kindle.com") {
        Err(AppError::BadRequest(m)) => assert_eq!(m, "Invalid Kindle email address"),
        _ => panic!("expected a bad request"),
    }
}

#[test]
fn default_format_preference() {
    assert_eq!(pick_kindle_format(&formats(&["PDF", "MOBI"]), None).ok(), Some("mobi".to_string()));
    assert_eq!(pick_kindle_format(&formats(&["pdf", "EPUB"]), None).ok(), Some("epub".to_string()));
    match pick_kindle_format(&formats(&["CBZ"]), None) {
        Err(AppError::UnprocessableEntity(m)) => {
            assert_eq!(m, "Book has no Kindle-compatible formats (epub, mobi, pdf)")
        }
        _ => panic!("expected unprocessable"),
    }
}

#[test]
fn requested_formats() {
    assert_eq!(pick_kindle_format(&formats(&["EPUB", "PDF"]), Some("PDF")).ok(), Some("pdf".to_string()));
    match pick_kindle_format(&formats(&["EPUB"]), Some("cbz")) {
        Err(AppError::BadRequest(m)) => {
            assert_eq!(m, "Format 'cbz' is not supported for Send-to-Kindle. Supported: epub, mobi, pdf")
        }
        _ => panic!("expected a bad request"),
    }
    match pick_kindle_format(&formats(&["EPUB"]), Some("Mobi")) {
        Err(AppError::NotFound(m)) => assert_eq!(m, "Book does not have format 'Mobi'"),
        _ => panic!("expected not found"),
    }
}

#[test]
fn send_preconditions() {
    match check_send_to_kindle(false, Some("a@kindle.com".to_string())) {
        Err(AppError::UnprocessableEntity(m)) => assert_eq!(
            m,
            "SMTP is not configured on this server. Send-to-Kindle requires SMTP settings."
        ),
        _ => panic!("expected unprocessable"),
    }
    assert!(matches!(check_send_to_kindle(true, None), Err(AppError::BadRequest(_))));
    assert_eq!(check_send_to_kindle(true, Some("a@kindle.com".to_string())).ok(), Some("a@kindle.com".to_string()));
}

#[test]
fn format_lookup_ignores_case() {
    let f = formats(&["EPUB", "PDF", "pdf"]);
    assert_eq!(find_format(&f, "PDF"), Some(1));
    assert_eq!(find_format(&f, "pdf"), Some(1));
    assert_eq!(find_format(&f, "mobi"), None);
    let chosen = pick_kindle_format(&formats(&["EPUB"]), None).ok().unwrap();
    assert_eq!(chosen, "epub");
    assert_eq!(find_format(&formats(&["EPUB"]), &chosen), Some(0));
}

#[test]
fn mail_parts() {
    assert!(is_kindle_supported_format("epub"));
    assert!(is_kindle_supported_format("EPUB"));
    assert!(!is_kindle_supported_format("cbz"));
    assert_eq!(kindle_mime_type("pdf"), "application/pdf");
    assert_eq!(kindle_mime_type("epub"), "application/epub+zip");
    assert_eq!(kindle_subject("Dune"), "Ironshelf: Dune");
    assert_eq!(
        kindle_body_text("Dune"),
        "Sent from Ironshelf: Dune\n\nThis book was sent to your Kindle via Ironshelf's Send-to-Kindle feature."
    );
    assert_eq!(
        unsupported_format_message("cbz"),
        "Format 'cbz' is not supported for Send-to-Kindle. Supported: epub, pdf, mobi"
    );
}
