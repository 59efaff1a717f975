//! Optional write-back of applied metadata overrides to Calibre: which
//! mechanism the settings select, and the command or request that carries
//! the fields. Running the command or sending the request is left to the
//! caller.

use vstd::prelude::*;
use crate::text::{
    chars_of, decimal, decimal_i64, extend_chars, extend_str, lemma_trail_eq_is, ostr,
    slice_chars, str_eq, string_from_str, string_of, strs, trail_eq, trim, trim_str,
};

verus! {

/// Fields pushed to Calibre: what Ironshelf overrides store.
pub struct CalibreFields {
    pub title: Option<String>,
    pub comments: Option<String>,
    pub tags: Vec<String>,
}

impl CalibreFields {
    /// Whether there is nothing to write.
    pub fn is_empty(&self) -> (r: bool)
        ensures
            r == (self.title is None && self.comments is None && self.tags@.len() == 0),
    {
        self.title.is_none() && self.comments.is_none() && self.tags.len() == 0
    }
}

/// A book override as stored in the database.
pub struct StoredBookOverride {
    pub book_id: String,
    pub title: Option<String>,
    pub description: Option<String>,
    pub cover_url: Option<String>,
    pub tags_json: Option<String>,
    pub applied_at: String,
}

/// The fields to push for a stored override: its title, its description as
/// the comments, and the tags its `tags_json` holds (`parsed_tags`, the
/// caller's reading of that JSON as a list of strings; none when it is
/// absent or not such a list).
pub fn override_fields(book_override: StoredBookOverride, parsed_tags: Option<Vec<String>>) -> (r:
    CalibreFields)
    ensures
        r.title == book_override.title,
        r.comments == book_override.description,
        r.tags@ == (match parsed_tags {
            Some(t) => t@,
            None => Seq::<String>::empty(),
        }),
{
    let tags = match parsed_tags {
        Some(t) => t,
        None => Vec::new(),
    };
    CalibreFields { title: book_override.title, comments: book_override.description, tags }
}

/// What `serde_json::from_str::<Vec<String>>` reads from a text: the list
/// of strings it holds, or `None` when it is not a JSON array of strings.
pub uninterp spec fn json_string_list(json: Seq<char>) -> Option<Seq<Seq<char>>>;

/// `serde_json::from_str::<Vec<String>>`: the strings of a JSON array, or
/// `None` when the text is not one. The contract names the result.
#[verifier::external_body]
fn parse_string_list(json: &str) -> (r: Option<Vec<String>>)
    ensures
        match r {
            Some(v) => json_string_list(json@) == Some(strs(v@)),
            None => json_string_list(json@) is None,
        },
{
    serde_json::from_str::<Vec<String>>(json).ok()
}

/// The tags a stored override holds: the strings of its `tags_json`, none
/// when it has none or the text is not a JSON list of strings.
pub open spec fn stored_tags(tags_json: Option<String>) -> Seq<Seq<char>> {
    match tags_json {
        Some(j) => match json_string_list(j@) {
            Some(t) => t,
            None => Seq::empty(),
        },
        None => Seq::empty(),
    }
}

/// The fields to push for a stored override, its tags read from its JSON.
pub fn stored_override_fields(book_override: StoredBookOverride) -> (r: CalibreFields)
    ensures
        r.title == book_override.title,
        r.comments == book_override.description,
        strs(r.tags@) == stored_tags(book_override.tags_json),
{
    let parsed = match &book_override.tags_json {
        Some(j) => parse_string_list(j.as_str()),
        None => None,
    };
    proof {
        if parsed is None {
            assert(strs(Seq::<String>::empty()) =~= Seq::<Seq<char>>::empty());
        }
    }
    override_fields(book_override, parsed)
}

/// The write-back mechanism the settings select.
pub enum WritebackMode {
    /// Write-back is off.
    Disabled,
    /// Calibre's `calibredb set_metadata` command.
    Calibredb,
    /// A running Calibre Content Server's set-fields API.
    ContentServer,
    /// A mode the server does not know, by name.
    Unknown(String),
}

/// Read the `calibre_writeback_mode` setting: absent, empty and `none` turn
/// write-back off.
pub fn writeback_mode(setting: Option<&str>) -> (r: WritebackMode)
    ensures
        match setting {
            None => r is Disabled,
            Some(m) => if m@.len() == 0 || m@ == "none"@ {
                r is Disabled
            } else if m@ == "calibredb"@ {
                r is Calibredb
            } else if m@ == "content_server"@ {
                r is ContentServer
            } else {
                r matches WritebackMode::Unknown(n) && n@ == m@
            },
        },
{
    match setting {
        None => WritebackMode::Disabled,
        Some(m) => {
            if m.is_empty() || str_eq(m, "none") {
                WritebackMode::Disabled
            } else if str_eq(m, "calibredb") {
                WritebackMode::Calibredb
            } else if str_eq(m, "content_server") {
                WritebackMode::ContentServer
            } else {
                WritebackMode::Unknown(string_from_str(m))
            }
        },
    }
}

/// The error of an unknown mode.
pub fn unknown_mode_error(mode: &str) -> (out: String)
    ensures
        out@ == "unknown calibre_writeback_mode: "@ + mode@,
{
    let mut v = chars_of("unknown calibre_writeback_mode: ");
    extend_str(&mut v, mode);
    string_of(&v)
}

/// A setting that counts only when it is not blank, else a default.
pub open spec fn setting_or(value: Option<Seq<char>>, default: Seq<char>) -> Seq<char> {
    match value {
        Some(v) => if trim(v).len() > 0 {
            v
        } else {
            default
        },
        None => default,
    }
}

/// A setting that counts only when it is not blank, else `default`.
pub fn setting_or_default(value: Option<String>, default: &str) -> (out: String)
    ensures
        out@ == setting_or(ostr(value), default@),
{
    match value {
        Some(v) => {
            if trim_str(v.as_str()).len() > 0 {
                v
            } else {
                string_from_str(default)
            }
        },
        None => string_from_str(default),
    }
}

/// The Content Server URL, which must be set and not blank.
pub fn content_server_base_url(value: Option<String>) -> (r: Result<String, String>)
    ensures
        match ostr(value) {
            Some(v) => if trim(v).len() > 0 {
                r matches Ok(u) && u@ == v
            } else {
                r matches Err(m) && m@ == "Calibre Content Server URL is not configured"@
            },
            None => r matches Err(m) && m@ == "Calibre Content Server URL is not configured"@,
        },
{
    match value {
        Some(v) => {
            if trim_str(v.as_str()).len() > 0 {
                return Ok(v);
            }
        },
        None => {},
    }
    Err(string_from_str("Calibre Content Server URL is not configured"))
}

/// The texts joined by commas.
pub open spec fn join_commas(ws: Seq<Seq<char>>) -> Seq<char>
    decreases ws.len(),
{
    if ws.len() == 0 {
        seq![]
    } else if ws.len() == 1 {
        ws[0]
    } else {
        join_commas(ws.drop_last()) + seq![','] + ws.last()
    }
}

/// The texts joined by commas, computed.
fn join_commas_exec(ws: &Vec<String>) -> (out: Vec<char>)
    ensures
        out@ == join_commas(strs(ws@)),
{
    let mut out: Vec<char> = Vec::new();
    let mut i: usize = 0;
    while i < ws.len()
        invariant
            i <= ws.len(),
            out@ == join_commas(strs(ws@).take(i as int)),
        decreases ws.len() - i,
    {
        let ghost t = strs(ws@).take(i as int + 1);
        assert(t.drop_last() =~= strs(ws@).take(i as int));
        assert(t.last() == ws@[i as int]@);
        if i > 0 {
            out.push(',');
        }
        extend_str(&mut out, ws[i].as_str());
        i = i + 1;
        proof {
            if i == 1 {
                assert(out@ =~= t[0]);
            } else {
                assert(out@ =~= join_commas(t.drop_last()) + seq![','] + t.last());
            }
        }
    }
    assert(strs(ws@).take(ws.len() as int) =~= strs(ws@));
    out
}

/// The arguments of `calibredb`: `set_metadata --with-library LIBRARY ID`,
/// then a `--field` for the title, the comments and the tags (comma-joined),
/// each when present.
pub open spec fn calibredb_arguments(library_path: Seq<char>, book_id: i64, fields: CalibreFields) -> Seq<
    Seq<char>,
> {
    seq!["set_metadata"@, "--with-library"@, library_path, decimal(book_id as int)] + (
    match ostr(fields.title) {
        Some(t) => seq!["--field"@, "title:"@ + t],
        None => seq![],
    }) + (match ostr(fields.comments) {
        Some(c) => seq!["--field"@, "comments:"@ + c],
        None => seq![],
    }) + (if fields.tags@.len() > 0 {
        seq!["--field"@, "tags:"@ + join_commas(strs(fields.tags@))]
    } else {
        seq![]
    })
}

/// `prefix` followed by `value`, as a string.
fn prefixed(prefix: &str, value: &Vec<char>) -> (out: String)
    ensures
        out@ == prefix@ + value@,
{
    let mut v = chars_of(prefix);
    extend_chars(&mut v, value);
    string_of(&v)
}

/// The arguments `calibredb` is run with.
pub fn calibredb_args(library_path: &str, book_id: i64, fields: &CalibreFields) -> (out: Vec<
    String,
>)
    ensures
        strs(out@) == calibredb_arguments(library_path@, book_id, *fields),
{
    let mut out: Vec<String> = Vec::new();
    out.push(string_from_str("set_metadata"));
    out.push(string_from_str("--with-library"));
    out.push(string_from_str(library_path));
    out.push(string_of(&decimal_i64(book_id)));
    let ghost base = seq!["set_metadata"@, "--with-library"@, library_path@, decimal(book_id as int)];
    assert(strs(out@) =~= base);
    let ghost a = out@;
    match &fields.title {
        Some(t) => {
            out.push(string_from_str("--field"));
            out.push(prefixed("title:", &chars_of(t.as_str())));
        },
        None => {},
    }
    let ghost t_part = match ostr(fields.title) {
        Some(t) => seq!["--field"@, "title:"@ + t],
        None => seq![],
    };
    assert(strs(out@) =~= strs(a) + t_part);
    let ghost b = out@;
    match &fields.comments {
        Some(c) => {
            out.push(string_from_str("--field"));
            out.push(prefixed("comments:", &chars_of(c.as_str())));
        },
        None => {},
    }
    let ghost c_part = match ostr(fields.comments) {
        Some(c) => seq!["--field"@, "comments:"@ + c],
        None => seq![],
    };
    assert(strs(out@) =~= strs(b) + c_part);
    let ghost c2 = out@;
    if fields.tags.len() > 0 {
        out.push(string_from_str("--field"));
        let joined = join_commas_exec(&fields.tags);
        out.push(prefixed("tags:", &joined));
    }
    let ghost tags_part = if fields.tags@.len() > 0 {
        seq!["--field"@, "tags:"@ + join_commas(strs(fields.tags@))]
    } else {
        seq![]
    };
    assert(strs(out@) =~= strs(c2) + tags_part);
    assert(strs(out@) =~= base + t_part + c_part + tags_part);
    out
}

/// `s` without its trailing slashes.
pub open spec fn without_trailing_slashes(s: Seq<char>) -> Seq<char> {
    s.take(s.len() - trail_eq(s, '/'))
}

/// The Content Server endpoint that sets a book's fields:
/// `BASE/cdb/set-fields/ID/LIBRARY`, trailing slashes of the base dropped.
pub open spec fn set_fields_url(base_url: Seq<char>, book_id: i64, library_id: Seq<char>) -> Seq<char> {
    without_trailing_slashes(base_url) + "/cdb/set-fields/"@ + decimal(book_id as int) + "/"@
        + library_id
}

/// The URL of the Content Server request.
pub fn content_server_url(base_url: &str, book_id: i64, library_id: &str) -> (out: String)
    ensures
        out@ == set_fields_url(base_url@, book_id, library_id@),
{
    let b = chars_of(base_url);
    let mut end: usize = b.len();
    while end > 0 && b[end - 1] == '/'
        invariant
            end <= b.len(),
            forall|j: int| end <= j < b.len() ==> #[trigger] b@[j] == '/',
        decreases end,
    {
        end = end - 1;
    }
    proof {
        lemma_trail_eq_is(b@, '/', b.len() - end);
    }
    let mut v = slice_chars(&b, 0, end);
    assert(v@ =~= without_trailing_slashes(base_url@));
    extend_str(&mut v, "/cdb/set-fields/");
    extend_chars(&mut v, &decimal_i64(book_id));
    extend_str(&mut v, "/");
    extend_str(&mut v, library_id);
    string_of(&v)
}

} // verus!
