//! Unified domain models, independent of where a library's books come from.

use vstd::prelude::*;
use crate::text::{string_from_str};

verus! {

/// Source kind for a library.
#[derive(Debug, Clone, Copy, PartialEq, Eq, Structural)]
pub enum SourceKind {
    Calibre,
    Folder,
}

/// Library content type.
#[derive(Debug, Clone, Copy, PartialEq, Eq, Structural)]
pub enum LibraryType {
    Book,
    LightNovel,
    WebNovel,
    Fanfiction,
    Comic,
    Manga,
    Mixed,
}

/// The wire name of a source kind (snake case).
pub open spec fn source_kind_name(k: SourceKind) -> Seq<char> {
    match k {
        SourceKind::Calibre => "calibre"@,
        SourceKind::Folder => "folder"@,
    }
}

/// The wire name of a library type (snake case).
pub open spec fn library_type_name(t: LibraryType) -> Seq<char> {
    match t {
        LibraryType::Book => "book"@,
        LibraryType::LightNovel => "light_novel"@,
        LibraryType::WebNovel => "web_novel"@,
        LibraryType::Fanfiction => "fanfiction"@,
        LibraryType::Comic => "comic"@,
        LibraryType::Manga => "manga"@,
        LibraryType::Mixed => "mixed"@,
    }
}

impl SourceKind {
    /// The snake-case name under which the kind is stored and shown.
    pub fn name(&self) -> (out: String)
        ensures
            out@ == source_kind_name(*self),
    {
        match self {
            SourceKind::Calibre => string_from_str("calibre"),
            SourceKind::Folder => string_from_str("folder"),
        }
    }
}

impl LibraryType {
    /// The snake-case name under which the type is stored and shown.
    pub fn name(&self) -> (out: String)
        ensures
            out@ == library_type_name(*self),
    {
        match self {
            LibraryType::Book => string_from_str("book"),
            LibraryType::LightNovel => string_from_str("light_novel"),
            LibraryType::WebNovel => string_from_str("web_novel"),
            LibraryType::Fanfiction => string_from_str("fanfiction"),
            LibraryType::Comic => string_from_str("comic"),
            LibraryType::Manga => string_from_str("manga"),
            LibraryType::Mixed => string_from_str("mixed"),
        }
    }
}

/// An author.
#[derive(Debug, Clone)]
pub struct Author {
    pub id: i64,
    pub name: String,
    pub sort_name: String,
    pub book_count: i64,
    pub series_count: i64,
}

/// A series.
#[derive(Debug, Clone)]
pub struct Series {
    pub id: i64,
    pub name: String,
    pub sort_name: String,
    pub book_count: i64,
}

/// A book format (EPUB, PDF, etc).
#[derive(Debug, Clone)]
pub struct Format {
    pub kind: String,
    pub size: Option<u64>,
    pub file_name: String,
}

/// Metadata about a custom column.
#[derive(Debug, Clone)]
pub struct CustomColumn {
    pub id: i64,
    pub label: String,
    pub name: String,
    pub datatype: String,
    pub is_multiple: bool,
}

} // verus!
