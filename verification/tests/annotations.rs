use ironshelf::annotations::{
    check_highlight_color, check_optional_color, check_view_library_access, default_color,
    default_format, library_access_response, validate_create_highlight, validate_pinned_libraries,
    validate_progress_format, CreateHighlightRequest, PinnedLibraryDto, SetPinnedLibrariesRequest,
};
use ironshelf::error::AppError;

fn bad_mark(r: Result<(), AppError>) -> String {
    match r {
        Err(AppError::BadRequest(m)) => m,
        _ => panic!("expected a bad request"),
    }
}

fn pin(id: &str, name: &str) -> PinnedLibraryDto {
    PinnedLibraryDto { id: id.to_string(), name: name.to_string(), source_kind: "calibre".to_string() }
}

#[test]
fn highlight_colors() {
    assert_eq!(default_color(), "yellow");
    assert_eq!(default_format(), "EPUB");
    assert!(check_highlight_color("purple", false).is_ok());
    assert_eq!(
        bad_mark(check_highlight_color("red", false)),
        "Invalid color 'red'. Valid colors: yellow, green, blue, pink, purple"
    );
    assert_eq!(
        bad_mark(check_optional_color(&Some("Red".to_string()), true)),
        "Invalid color filter 'Red'. Valid colors: yellow, green, blue, pink, purple"
    );
    assert!(check_optional_color(&None, true).is_ok());
}

#[test]
fn new_highlights() {
    let mut request = CreateHighlightRequest {
        cfi_range: "epubcfi(/6/4)".to_string(),
        text_content: None,
        color: "green".to_string(),
        note: None,
        format: "EPUB".to_string(),
    };
    assert!(validate_create_highlight(&request).is_ok());
    request.cfi_range = " ".to_string();
    assert_eq!(bad_mark(validate_create_highlight(&request)), "cfi_range must not be empty");
    request.color = "grey".to_string();
    assert!(bad_mark(validate_create_highlight(&request)).starts_with("Invalid color 'grey'"));
    assert_eq!(bad_mark(validate_progress_format("")), "format must not be empty");
}

#[test]
fn pinned_libraries() {
    let ok = SetPinnedLibrariesRequest { libraries: vec![pin("a", "A"), pin("b", "B")] };
    assert!(validate_pinned_libraries(&ok).is_ok());
    let too_many = SetPinnedLibrariesRequest { libraries: (0..11).map(|i| pin(&i.to_string(), "L")).collect() };
    assert_eq!(bad_mark(validate_pinned_libraries(&too_many)), "Cannot pin more than 10 libraries");
    let unnamed = SetPinnedLibrariesRequest { libraries: vec![pin("a", " ")] };
    assert_eq!(bad_mark(validate_pinned_libraries(&unnamed)), "Pinned library id and name are required");
}

#[test]
fn library_access_lists() {
    assert!(check_view_library_access(false, "u1", "u1").is_ok());
    assert!(check_view_library_access(true, "u1", "u2").is_ok());
    match check_view_library_access(false, "u1", "u2") {
        Err(AppError::Forbidden(m)) => assert_eq!(m, "Insufficient permissions"),
        _ => panic!("expected forbidden"),
    }
    let r = library_access_response("u2".to_string(), None);
    assert!(!r.is_restricted && r.library_ids.is_empty());
    let s = library_access_response("u2".to_string(), Some(vec!["l".to_string()]));
    assert!(s.is_restricted);
    assert_eq!(s.library_ids, vec!["l".to_string()]);
}
