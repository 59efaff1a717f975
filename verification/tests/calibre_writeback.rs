use ironshelf::calibre_writeback::{
    calibredb_args, content_server_base_url, content_server_url, override_fields,
    setting_or_default, unknown_mode_error, writeback_mode, CalibreFields, StoredBookOverride,
    WritebackMode,
};

fn stored_override(title: Option<&str>) -> StoredBookOverride {
    StoredBookOverride {
        book_id: "7".to_string(),
        title: title.map(|s| s.to_string()),
        description: Some("About".to_string()),
        cover_url: None,
        tags_json: Some("[\"a\",\"b\"]".to_string()),
        applied_at: "t".to_string(),
    }
}

#[test]
fn modes() {
    assert!(matches!(writeback_mode(None), WritebackMode::Disabled));
    assert!(matches!(writeback_mode(Some("")), WritebackMode::Disabled));
    assert!(matches!(writeback_mode(Some("none")), WritebackMode::Disabled));
    assert!(matches!(writeback_mode(Some("calibredb")), WritebackMode::Calibredb));
    assert!(matches!(writeback_mode(Some("content_server")), WritebackMode::ContentServer));
    match writeback_mode(Some("ftp")) {
        WritebackMode::Unknown(n) => assert_eq!(n, "ftp"),
        _ => panic!("expected an unknown mode"),
    }
    assert_eq!(unknown_mode_error("ftp"), "unknown calibre_writeback_mode: ftp");
}

#[test]
fn settings_with_defaults() {
    assert_eq!(setting_or_default(Some("  ".to_string()), "calibredb"), "calibredb");
    assert_eq!(setting_or_default(Some("/opt/calibredb".to_string()), "calibredb"), "/opt/calibredb");
    assert_eq!(setting_or_default(None, "calibredb"), "calibredb");
    assert_eq!(content_server_base_url(Some("http://cs".to_string())).ok(), Some("http://cs".to_string()));
    assert_eq!(
        content_server_base_url(Some(" ".to_string())).err(),
        Some("Calibre Content Server URL is not configured".to_string())
    );
}

#[test]
fn override_fields_carry_what_is_stored() {
    let fields = override_fields(stored_override(Some("T")), Some(vec!["a".to_string(), "b".to_string()]));
    assert_eq!(fields.title.as_deref(), Some("T"));
    assert_eq!(fields.comments.as_deref(), Some("About"));
    assert_eq!(fields.tags, vec!["a".to_string(), "b".to_string()]);
    let no_tags = override_fields(stored_override(None), None);
    assert!(no_tags.tags.is_empty());
    assert!(!no_tags.is_empty());
    let nothing = CalibreFields { title: None, comments: None, tags: vec![] };
    assert!(nothing.is_empty());
}

#[test]
fn calibredb_arguments() {
    let fields = CalibreFields {
        title: Some("Dune".to_string()),
        comments: None,
        tags: vec!["sf".to_string(), "classic".to_string()],
    };
    assert_eq!(
        calibredb_args("/lib", 42, &fields),
        vec!["set_metadata", "--with-library", "/lib", "42", "--field", "title:Dune", "--field", "tags:sf,classic"]
            .into_iter()
            .map(|s| s.to_string())
            .collect::<Vec<String>>()
    );
}

#[test]
fn content_server_endpoint() {
    assert_eq!(content_server_url("http://cs:8080//", 42, "lib"), "http://cs:8080/cdb/set-fields/42/lib");
}

fn override_with_json(tags_json: Option<&str>) -> ironshelf::calibre_writeback::StoredBookOverride {
    ironshelf::calibre_writeback::StoredBookOverride {
        book_id: "1".to_string(),
        title: Some("T".to_string()),
        description: None,
        cover_url: None,
        tags_json: tags_json.map(|s| s.to_string()),
        applied_at: "now".to_string(),
    }
}

#[test]
fn stored_tags_are_read_from_json() {
    let f = ironshelf::calibre_writeback::stored_override_fields(override_with_json(Some("[\"Fiction\",\"Classics\"]")));
    assert_eq!(f.tags, vec!["Fiction".to_string(), "Classics".to_string()]);
    assert_eq!(f.title.as_deref(), Some("T"));
    assert!(ironshelf::calibre_writeback::stored_override_fields(override_with_json(Some("not json"))).tags.is_empty());
    assert!(ironshelf::calibre_writeback::stored_override_fields(override_with_json(Some("[1,2]"))).tags.is_empty());
    assert!(ironshelf::calibre_writeback::stored_override_fields(override_with_json(None)).tags.is_empty());
}
