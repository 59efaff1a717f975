//! Serving a book's files: which format is sent, with which content type,
//! and under which file name.

use vstd::prelude::*;
use crate::model::Format;
use crate::text::{
    chars_eq, chars_eq_str, chars_of, split_chars, split_on, views, eq_ignore_ascii_case, eq_ignore_ascii_case_exec, extend_chars, extend_str, lowercase,
    matches_at_exec, starts_with, str_eq, string_from_str, string_of, to_lowercase, to_uppercase, uppercase,
};

verus! {

/// The content type a file download is sent with, by its format in upper
/// case.
pub open spec fn download_mime(kind_upper: Seq<char>) -> Seq<char> {
    if kind_upper == "EPUB"@ {
        "application/epub+zip"@
    } else if kind_upper == "PDF"@ {
        "application/pdf"@
    } else if kind_upper == "CBZ"@ {
        "application/x-cbz"@
    } else if kind_upper == "MOBI"@ {
        "application/x-mobipocket-ebook"@
    } else {
        "application/octet-stream"@
    }
}

/// The content type of a downloaded file of this format (any case).
pub fn download_content_type(kind: &str) -> (out: String)
    ensures
        out@ == download_mime(uppercase(kind@)),
{
    let u = to_uppercase(kind);
    let f = u.as_str();
    if str_eq(f, "EPUB") {
        string_from_str("application/epub+zip")
    } else if str_eq(f, "PDF") {
        string_from_str("application/pdf")
    } else if str_eq(f, "CBZ") {
        string_from_str("application/x-cbz")
    } else if str_eq(f, "MOBI") {
        string_from_str("application/x-mobipocket-ebook")
    } else {
        string_from_str("application/octet-stream")
    }
}

/// `s` with every `/` made `_`.
pub open spec fn slashes_replaced(s: Seq<char>) -> Seq<char> {
    s.map_values(|c: char| if c == '/' { '_' } else { c })
}

/// The name a downloaded file is given: the book's title with its slashes
/// made underscores, then a dot and the format in lower case.
pub fn download_file_name(title: &str, kind: &str) -> (out: String)
    ensures
        out@ == slashes_replaced(title@) + "."@ + lowercase(kind@),
{
    let t = chars_of(title);
    let mut v: Vec<char> = Vec::new();
    let mut i: usize = 0;
    while i < t.len()
        invariant
            i <= t.len(),
            v@ == slashes_replaced(t@.take(i as int)),
        decreases t.len() - i,
    {
        let c = t[i];
        if c == '/' {
            v.push('_');
        } else {
            v.push(c);
        }
        assert(slashes_replaced(t@.take(i + 1)) =~= slashes_replaced(t@.take(i as int)).push(
            if c == '/' {
                '_'
            } else {
                c
            },
        ));
        i = i + 1;
    }
    assert(t@.take(t.len() as int) =~= t@);
    extend_str(&mut v, ".");
    let l = to_lowercase(kind);
    extend_str(&mut v, l.as_str());
    string_of(&v)
}

/// The `Content-Disposition` of a download under this file name.
pub fn attachment_disposition(file_name: &str) -> (out: String)
    ensures
        out@ == "attachment; filename=\""@ + file_name@ + "\""@,
{
    let mut v = chars_of("attachment; filename=\"");
    extend_str(&mut v, file_name);
    extend_str(&mut v, "\"");
    string_of(&v)
}

/// The position of the first format whose kind is `kind` ignoring ASCII
/// case.
pub open spec fn first_kind_match(formats: Seq<Format>, kind: Seq<char>) -> Option<int>
    decreases formats.len(),
{
    if formats.len() == 0 {
        None
    } else {
        match first_kind_match(formats.drop_last(), kind) {
            Some(i) => Some(i),
            None => if eq_ignore_ascii_case(formats.last().kind@, kind) {
                Some(formats.len() - 1)
            } else {
                None
            },
        }
    }
}

/// The first match of a prefix that holds one is the first of the whole.
proof fn lemma_first_kind_prefix(formats: Seq<Format>, kind: Seq<char>, n: int)
    requires
        0 <= n <= formats.len(),
        first_kind_match(formats.take(n), kind) is Some,
    ensures
        first_kind_match(formats, kind) == first_kind_match(formats.take(n), kind),
    decreases formats.len() - n,
{
    if n < formats.len() {
        assert(formats.take(n + 1).drop_last() =~= formats.take(n));
        lemma_first_kind_prefix(formats, kind, n + 1);
    } else {
        assert(formats.take(n) =~= formats);
    }
}

/// The position of the first format of this kind, ignoring ASCII case.
pub fn find_format_ignoring_case(formats: &Vec<Format>, kind: &str) -> (r: Option<usize>)
    ensures
        match first_kind_match(formats@, kind@) {
            Some(i) => r matches Some(k) && k == i,
            None => r is None,
        },
        r matches Some(i) ==> i < formats@.len(),
{
    let mut i: usize = 0;
    while i < formats.len()
        invariant
            i <= formats.len(),
            first_kind_match(formats@.take(i as int), kind@) is None,
        decreases formats.len() - i,
    {
        assert(formats@.take(i + 1).drop_last() =~= formats@.take(i as int));
        if eq_ignore_ascii_case_exec(formats[i].kind.as_str(), kind) {
            proof {
                lemma_first_kind_prefix(formats@, kind@, i as int + 1);
            }
            return Some(i);
        }
        i = i + 1;
    }
    assert(formats@.take(formats.len() as int) =~= formats@);
    None
}

/// The format a file request is served: the requested kind (ignoring ASCII
/// case), or the book's first format when none is asked for.
pub fn choose_file_format(formats: &Vec<Format>, requested: Option<&str>) -> (r: Option<usize>)
    ensures
        match requested {
            Some(q) => match first_kind_match(formats@, q@) {
                Some(i) => r matches Some(k) && k == i,
                None => r is None,
            },
            None => if formats@.len() > 0 {
                r == Some(0usize)
            } else {
                r is None
            },
        },
        r matches Some(i) ==> i < formats@.len(),
{
    match requested {
        Some(q) => find_format_ignoring_case(formats, q),
        None => if formats.len() > 0 {
            Some(0)
        } else {
            None
        },
    }
}

// ---------------------------------------------------------------------------
// Paths of a Calibre library
// ---------------------------------------------------------------------------

/// Joining Unix paths (`Path::join`): an absolute `b` replaces `a`;
/// otherwise `b` follows `a`, with a `/` between them unless `a` is empty
/// or already ends with one.
pub open spec fn path_join(a: Seq<char>, b: Seq<char>) -> Seq<char> {
    if b.len() > 0 && b[0] == '/' {
        b
    } else if a.len() == 0 || a.last() == '/' {
        a + b
    } else {
        a + "/"@ + b
    }
}

/// Join two Unix paths.
fn join_path(a: &Vec<char>, b: &Vec<char>) -> (out: Vec<char>)
    ensures
        out@ == path_join(a@, b@),
{
    if b.len() > 0 && b[0] == '/' {
        let mut out: Vec<char> = Vec::new();
        extend_chars(&mut out, b);
        assert(out@ =~= b@);
        out
    } else {
        let mut out: Vec<char> = Vec::new();
        extend_chars(&mut out, a);
        if !(a.len() == 0 || a[a.len() - 1] == '/') {
            out.push('/');
        }
        extend_chars(&mut out, b);
        proof {
            reveal_strlit("/");
        }
        assert(out@ =~= path_join(a@, b@));
        out
    }
}

/// Whether a relative path stays below the directory it is joined to: it
/// is not absolute and none of its `/`-separated parts is `..`.
pub open spec fn stays_below(s: Seq<char>) -> bool {
    &&& !(s.len() > 0 && s[0] == '/')
    &&& forall|i: int| 0 <= i < split_on(s, '/').len() ==> #[trigger] split_on(s, '/')[i] != ".."@
}

/// Whether a relative path stays below the directory it is joined to.
fn stays_below_exec(s: &Vec<char>) -> (r: bool)
    ensures
        r == stays_below(s@),
{
    if s.len() > 0 && s[0] == '/' {
        return false;
    }
    let parts = split_chars(s, '/');
    let mut i: usize = 0;
    while i < parts.len()
        invariant
            i <= parts.len(),
            views(parts@) == split_on(s@, '/'),
            forall|j: int| 0 <= j < i ==> #[trigger] split_on(s@, '/')[j] != ".."@,
        decreases parts.len() - i,
    {
        if chars_eq_str(&parts[i], "..") {
            assert(split_on(s@, '/')[i as int] == parts@[i as int]@);
            return false;
        }
        assert(split_on(s@, '/')[i as int] == parts@[i as int]@);
        i = i + 1;
    }
    true
}

/// The file name of a format: the book's file name, a dot, and the format
/// in lower case.
pub open spec fn format_file_name(file_name: Seq<char>, format: Seq<char>) -> Seq<char> {
    file_name + "."@ + lowercase(format)
}

/// The file of a book's format in a Calibre library: the library path, the
/// book's folder, then the file name with the format in lower case as its
/// extension. None when the book's folder or the file name would lead out of
/// the library (an absolute path, or a `..` part): the path returned always
/// lies within the library directory.
pub fn calibre_format_path(library_path: &str, book_path: &str, file_name: &str, format: &str) -> (r: Option<
    String,
>)
    ensures
        r is Some <==> stays_below(book_path@) && stays_below(format_file_name(file_name@, format@)),
        r matches Some(p) ==> p@ == path_join(
            path_join(library_path@, book_path@),
            format_file_name(file_name@, format@),
        ) && starts_with(p@, library_path@),
{
    let book = chars_of(book_path);
    let mut f = chars_of(file_name);
    extend_str(&mut f, ".");
    let l = to_lowercase(format);
    extend_str(&mut f, l.as_str());
    if !stays_below_exec(&book) || !stays_below_exec(&f) {
        return None;
    }
    let lib = chars_of(library_path);
    let dir = join_path(&lib, &book);
    let out = join_path(&dir, &f);
    proof {
        assert(dir@.subrange(0, lib@.len() as int) =~= lib@);
        assert(out@.subrange(0, dir@.len() as int) =~= dir@);
        assert(out@.subrange(0, lib@.len() as int) =~= lib@);
    }
    Some(string_of(&out))
}

/// Whether the canonical path `p` lies in the canonical directory `root`
/// (`Path::starts_with` on such paths, which have no `.`, `..`, repeated or
/// trailing separators): it is the root, or the root followed by a
/// separator starts it.
pub open spec fn canonical_within(root: Seq<char>, p: Seq<char>) -> bool {
    ||| p == root
    ||| (root.len() > 0 && root.last() == '/' && starts_with(p, root))
    ||| starts_with(p, root + "/"@)
}

/// Whether a file may be served: both the library root and the file's path
/// could be made canonical (`None` when they could not), and the file lies
/// within the root. A path that cannot be resolved is refused.
pub fn is_path_within_library(library_root: Option<&str>, resolved: Option<&str>) -> (r: bool)
    ensures
        r == match (library_root, resolved) {
            (Some(root), Some(p)) => canonical_within(root@, p@),
            _ => false,
        },
{
    match (library_root, resolved) {
        (Some(root), Some(p)) => {
            let rc = chars_of(root);
            let pc = chars_of(p);
            if chars_eq(&pc, &rc) {
                return true;
            }
            if rc.len() > 0 && rc[rc.len() - 1] == '/' && starts_with_chars(&pc, &rc) {
                return true;
            }
            let mut rs = chars_of(root);
            rs.push('/');
            proof {
                reveal_strlit("/");
                assert(rs@ =~= root@ + "/"@);
            }
            starts_with_chars(&pc, &rs)
        },
        _ => false,
    }
}

/// Whether `h` begins with `n`.
fn starts_with_chars(h: &Vec<char>, n: &Vec<char>) -> (r: bool)
    ensures
        r == starts_with(h@, n@),
{
    matches_at_exec(h, n, 0)
}

} // verus!
