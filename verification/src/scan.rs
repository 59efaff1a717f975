//! Folder libraries: the package document (OPF) of an EPUB, the metadata a
//! scan reads out of it, and what a file's name tells.
//!
//! The OPF is read with plain text search, as the scanner does: the first
//! occurrence of a tag or attribute decides, and positions are character
//! positions in the document.

use vstd::prelude::*;
use crate::text::{
    chars_of, extend_chars, extend_str, find, find_char, find_char_from, find_chars, find_from,
    lemma_find_from, lemma_rfind, ostr, replace_all, replace_chars, rfind, rfind_chars, slice_chars,
    string_from_str, string_of, strs, trim, trim_bounds, trim_str, views, is_ws, is_whitespace, trim_chars,
};

verus! {

/// Error raised while scanning a folder library.
#[derive(Debug)]
pub enum ScanError {
    /// An I/O failure, with the system's description of it.
    Io(String),
    /// The library path does not exist.
    PathNotFound(String),
}

/// The message of a scan error.
pub open spec fn scan_error_message(e: ScanError) -> Seq<char> {
    match e {
        ScanError::Io(m) => "io error: "@ + m@,
        ScanError::PathNotFound(p) => "path not found: "@ + p@,
    }
}

impl ScanError {
    /// The human-readable message of the error.
    pub fn message(&self) -> (out: String)
        ensures
            out@ == scan_error_message(*self),
    {
        let mut chars: Vec<char> = Vec::new();
        match self {
            ScanError::Io(m) => {
                extend_str(&mut chars, "io error: ");
                extend_str(&mut chars, m.as_str());
            },
            ScanError::PathNotFound(p) => {
                extend_str(&mut chars, "path not found: ");
                extend_str(&mut chars, p.as_str());
            },
        }
        string_of(&chars)
    }
}

// ---------------------------------------------------------------------------
// container.xml
// ---------------------------------------------------------------------------

/// The rootfile path of a `container.xml`: what follows the first
/// `full-path="` up to the next quote (or the end of the text).
pub open spec fn opf_path_of(x: Seq<char>) -> Option<Seq<char>> {
    match find(x, "full-path=\""@) {
        None => None,
        Some(st) => {
            let after = x.skip(st + "full-path=\""@.len() as int);
            let end = match find_char(after, '"') {
                Some(e) => e as int,
                None => after.len() as int,
            };
            Some(after.take(end))
        },
    }
}

/// Position facts of a match found by `find_from`.
proof fn lemma_found(h: Seq<char>, n: Seq<char>, from: nat)
    ensures
        find_from(h, n, from) matches Some(i) ==> from <= i && i + n.len() <= h.len(),
{
    lemma_find_from(h, n, from);
}

/// The end of a quoted value: the first `"` in `s`, or its length.
fn quote_end(s: &Vec<char>) -> (e: usize)
    ensures
        e <= s.len(),
        e as int == match find_char(s@, '"') {
            Some(q) => q as int,
            None => s.len() as int,
        },
{
    proof {
        lemma_found(s@, seq!['"'], 0);
    }
    match find_char_from(s, '"', 0) {
        Some(q) => q,
        None => s.len(),
    }
}

/// Extract the rootfile path from `container.xml`.
pub fn extract_opf_path(container_xml: &str) -> (out: Option<String>)
    ensures
        ostr(out) == opf_path_of(container_xml@),
{
    let x = chars_of(container_xml);
    let pat = chars_of("full-path=\"");
    proof {
        lemma_found(x@, pat@, 0);
    }
    match find_chars(&x, &pat, 0) {
        None => None,
        Some(start) => {
            assert(find_from(x@, pat@, 0) == Some(start as nat));
            assert(start + pat.len() <= x.len());
            let after = slice_chars(&x, start + pat.len(), x.len());
            assert(after@ =~= x@.skip(start + pat@.len()));
            let end = quote_end(&after);
            let v = slice_chars(&after, 0, end);
            assert(v@ =~= after@.take(end as int));
            Some(string_of(&v))
        },
    }
}

// ---------------------------------------------------------------------------
// Entities
// ---------------------------------------------------------------------------

// ---------------------------------------------------------------------------
// EPUB archives
// ---------------------------------------------------------------------------

/// What reading the entry `name` of the ZIP archive `archive` as UTF-8 text
/// gives: the text, or the message of the first failure (the archive, the
/// entry or its decoding).
pub uninterp spec fn zip_entry_text(archive: Seq<u8>, name: Seq<char>) -> Result<Seq<char>, Seq<char>>;

/// `zip::ZipArchive::new` over the bytes, `by_name(name)`, then
/// `Read::read_to_string`: the entry's text, or the failure's message.
#[verifier::external_body]
fn read_zip_entry(archive: &[u8], name: &str) -> (r: Result<String, String>)
    ensures
        match r {
            Ok(t) => zip_entry_text(archive@, name@) == Ok::<Seq<char>, Seq<char>>(t@),
            Err(m) => zip_entry_text(archive@, name@) == Err::<Seq<char>, Seq<char>>(m@),
        },
{
    let mut zip = zip::ZipArchive::new(std::io::Cursor::new(archive)).map_err(|e| e.to_string())?;
    let mut entry = zip.by_name(name).map_err(|e| e.to_string())?;
    let mut text = String::new();
    std::io::Read::read_to_string(&mut entry, &mut text).map_err(|e| e.to_string())?;
    Ok(text)
}

/// The package document of an EPUB: the rootfile that
/// `META-INF/container.xml` names (`content.opf` when it names none).
pub open spec fn epub_opf(epub: Seq<u8>) -> Result<Seq<char>, Seq<char>> {
    match zip_entry_text(epub, "META-INF/container.xml"@) {
        Err(m) => Err(m),
        Ok(container) => zip_entry_text(
            epub,
            match opf_path_of(container) {
                Some(p) => p,
                None => "content.opf"@,
            },
        ),
    }
}

/// Read the OPF of an EPUB held in memory; a failure is an I/O error
/// carrying its message.
pub fn read_epub_opf(epub: &[u8]) -> (r: Result<String, ScanError>)
    ensures
        match epub_opf(epub@) {
            Ok(t) => r matches Ok(x) && x@ == t,
            Err(m) => r matches Err(ScanError::Io(x)) && x@ == m,
        },
{
    let container = match read_zip_entry(epub, "META-INF/container.xml") {
        Ok(c) => c,
        Err(m) => {
            return Err(ScanError::Io(m));
        },
    };
    let opf_path = match extract_opf_path(container.as_str()) {
        Some(p) => p,
        None => string_from_str("content.opf"),
    };
    match read_zip_entry(epub, opf_path.as_str()) {
        Ok(t) => Ok(t),
        Err(m) => Err(ScanError::Io(m)),
    }
}

/// Basic HTML entity decoding, one entity after the other: `&amp;`, `&lt;`,
/// `&gt;`, `&quot;`, `&#39;`, `&apos;`.
pub open spec fn html_decoded(s: Seq<char>) -> Seq<char> {
    replace_all(
        replace_all(
            replace_all(
                replace_all(
                    replace_all(replace_all(s, "&amp;"@, "&"@), "&lt;"@, "<"@),
                    "&gt;"@,
                    ">"@,
                ),
                "&quot;"@,
                "\""@,
            ),
            "&#39;"@,
            "'"@,
        ),
        "&apos;"@,
        "'"@,
    )
}

/// Basic HTML entity decode, on characters.
fn html_decode_chars(s: &Vec<char>) -> (out: Vec<char>)
    ensures
        out@ == html_decoded(s@),
{
    proof {
        reveal_strlit("&amp;");
        reveal_strlit("&lt;");
        reveal_strlit("&gt;");
        reveal_strlit("&quot;");
        reveal_strlit("&#39;");
        reveal_strlit("&apos;");
    }
    let a = replace_chars(s, "&amp;", "&");
    let b = replace_chars(&a, "&lt;", "<");
    let c = replace_chars(&b, "&gt;", ">");
    let d = replace_chars(&c, "&quot;", "\"");
    let e = replace_chars(&d, "&#39;", "'");
    replace_chars(&e, "&apos;", "'")
}

/// Basic HTML entity decode.
pub fn html_decode(s: &str) -> (out: String)
    ensures
        out@ == html_decoded(s@),
{
    let c = chars_of(s);
    let d = html_decode_chars(&c);
    string_of(&d)
}

// ---------------------------------------------------------------------------
// dc: elements
// ---------------------------------------------------------------------------

/// `<dc:NAME>`
pub open spec fn dc_open(el: Seq<char>) -> Seq<char> {
    "<dc:"@ + el + ">"@
}

/// `<dc:NAME ` (the element has attributes)
pub open spec fn dc_open_attr(el: Seq<char>) -> Seq<char> {
    "<dc:"@ + el + " "@
}

/// `</dc:NAME>`
pub open spec fn dc_close(el: Seq<char>) -> Seq<char> {
    "</dc:"@ + el + ">"@
}

/// The element found at `start`: the trimmed text between the end of
/// its opening tag and the next closing tag, with the position after that
/// closing tag. `None` where the opening tag or the closing tag is cut off.
pub open spec fn dc_at(opf: Seq<char>, close: Seq<char>, start: nat) -> Option<(Seq<char>, nat)> {
    let after = opf.skip(start as int);
    match find_char(after, '>') {
        None => None,
        Some(gt) => {
            let cs = gt + 1;
            match find(after.skip(cs as int), close) {
                None => None,
                Some(ce) => Some(
                    (trim(after.subrange(cs as int, (cs + ce) as int)), start + cs + ce + close.len()),
                ),
            }
        },
    }
}

/// One attempt with one opening pattern: `None` to go on with the next
/// pattern, `Some(r)` when the extraction answers `r`.
pub open spec fn dc_attempt(opf: Seq<char>, close: Seq<char>, pat: Seq<char>) -> Option<
    Option<Seq<char>>,
> {
    match find(opf, pat) {
        None => None,
        Some(start) => match dc_at(opf, close, start) {
            None => Some(None),
            Some((value, _)) => if value.len() > 0 {
                Some(Some(html_decoded(value)))
            } else {
                None
            },
        },
    }
}

/// The value of the first non-empty `dc:NAME` element: elements without
/// attributes are looked for first, then elements with attributes.
pub open spec fn dc_element(opf: Seq<char>, el: Seq<char>) -> Option<Seq<char>> {
    match dc_attempt(opf, dc_close(el), dc_open(el)) {
        Some(r) => r,
        None => match dc_attempt(opf, dc_close(el), dc_open_attr(el)) {
            Some(r) => r,
            None => None,
        },
    }
}

/// `prefix + el + suffix` as characters.
fn framed(prefix: &str, el: &Vec<char>, suffix: &str) -> (out: Vec<char>)
    ensures
        out@ == prefix@ + el@ + suffix@,
{
    let mut out: Vec<char> = Vec::new();
    extend_str(&mut out, prefix);
    extend_chars(&mut out, el);
    extend_str(&mut out, suffix);
    assert(out@ =~= prefix@ + el@ + suffix@);
    out
}

/// The element found at `start` (see [`dc_at`]), computed.
fn dc_at_exec(opf: &Vec<char>, close: &Vec<char>, start: usize) -> (r: Option<(Vec<char>, usize)>)
    requires
        start <= opf.len(),
    ensures
        match r {
            Some((v, next)) => {
                &&& dc_at(opf@, close@, start as nat) == Some((v@, next as nat))
                &&& start < next <= opf.len()
            },
            None => dc_at(opf@, close@, start as nat) is None,
        },
{
    let after = slice_chars(opf, start, opf.len());
    assert(after@ =~= opf@.skip(start as int));
    proof {
        lemma_found(after@, seq!['>'], 0);
    }
    match find_char_from(&after, '>', 0) {
        None => None,
        Some(gt) => {
            let cs = gt + 1;
            let rest = slice_chars(&after, cs, after.len());
            assert(rest@ =~= after@.skip(cs as int));
            proof {
                lemma_found(rest@, close@, 0);
            }
            match find_chars(&rest, close, 0) {
                None => None,
                Some(ce) => {
                    let (a, b) = trim_bounds(&after, cs, cs + ce);
                    let v = slice_chars(&after, a, b);
                    Some((v, start + cs + ce + close.len()))
                },
            }
        },
    }
}


/// One attempt of [`dc_attempt`], computed.
fn dc_attempt_exec(opf: &Vec<char>, close: &Vec<char>, pat: &Vec<char>) -> (r: Option<
    Option<Vec<char>>,
>)
    ensures
        match r {
            None => dc_attempt(opf@, close@, pat@) is None,
            Some(None) => dc_attempt(opf@, close@, pat@) == Some(None::<Seq<char>>),
            Some(Some(v)) => dc_attempt(opf@, close@, pat@) == Some(Some(v@)),
        },
{
    proof {
        lemma_found(opf@, pat@, 0);
    }
    match find_chars(opf, pat, 0) {
        None => None,
        Some(start) => match dc_at_exec(opf, close, start) {
            None => Some(None),
            Some((value, _)) => {
                if value.len() > 0 {
                    Some(Some(html_decode_chars(&value)))
                } else {
                    None
                }
            },
        },
    }
}


/// Extract the value of a single `dc:` element.
pub fn extract_dc_element(opf: &str, element: &str) -> (out: Option<String>)
    ensures
        ostr(out) == dc_element(opf@, element@),
{
    let x = chars_of(opf);
    let el = chars_of(element);
    let open = framed("<dc:", &el, ">");
    let open_attr = framed("<dc:", &el, " ");
    let close = framed("</dc:", &el, ">");
    match dc_attempt_exec(&x, &close, &open) {
        Some(Some(v)) => Some(string_of(&v)),
        Some(None) => None,
        None => match dc_attempt_exec(&x, &close, &open_attr) {
            Some(Some(v)) => Some(string_of(&v)),
            Some(None) => None,
            None => None,
        },
    }
}

/// The earlier of two optional positions.
pub open spec fn earliest(a: Option<nat>, b: Option<nat>) -> Option<nat> {
    match (a, b) {
        (Some(x), Some(y)) => Some(if x <= y { x } else { y }),
        (Some(x), None) => Some(x),
        (None, y) => y,
    }
}

/// The values of all `dc:` elements (opening tag `open` or `open_attr`,
/// closing tag `close`) found at or after `from`, in document order: each
/// search resumes after the closing tag of the previous element, elements with
/// empty text are skipped, and the search stops at the first element whose
/// tags are cut off.
pub open spec fn dc_all_from(
    opf: Seq<char>,
    open: Seq<char>,
    open_attr: Seq<char>,
    close: Seq<char>,
    from: nat,
) -> Seq<Seq<char>>
    decreases opf.len() + 1 - from,
{
    match earliest(find_from(opf, open, from), find_from(opf, open_attr, from)) {
        None => seq![],
        Some(start) => match dc_at(opf, close, start) {
            None => seq![],
            Some((value, next)) => {
                let rest = if from < next <= opf.len() {
                    dc_all_from(opf, open, open_attr, close, next)
                } else {
                    seq![]
                };
                if value.len() > 0 {
                    seq![html_decoded(value)] + rest
                } else {
                    rest
                }
            },
        },
    }
}

/// The values of all `dc:NAME` elements, in document order.
pub open spec fn dc_elements(opf: Seq<char>, el: Seq<char>) -> Seq<Seq<char>> {
    dc_all_from(opf, dc_open(el), dc_open_attr(el), dc_close(el), 0)
}

/// Extract the values of all `dc:` elements with the same name.
pub fn extract_dc_elements(opf: &str, element: &str) -> (out: Vec<String>)
    ensures
        strs(out@) == dc_elements(opf@, element@),
{
    let x = chars_of(opf);
    let el = chars_of(element);
    let open = framed("<dc:", &el, ">");
    let open_attr = framed("<dc:", &el, " ");
    let close = framed("</dc:", &el, ">");
    assert(open@ == dc_open(element@));
    assert(open_attr@ == dc_open_attr(element@));
    assert(close@ == dc_close(element@));
    assert(dc_elements(opf@, element@) == dc_all_from(x@, open@, open_attr@, close@, 0));
    let mut results: Vec<String> = Vec::new();
    let mut search_from: usize = 0;
    loop
        invariant
            search_from <= x.len(),
            dc_elements(opf@, element@) == dc_all_from(x@, open@, open_attr@, close@, 0),
            strs(results@) + dc_all_from(x@, open@, open_attr@, close@, search_from as nat)
                == dc_all_from(x@, open@, open_attr@, close@, 0),
        decreases x.len() + 1 - search_from,
    {
        let ghost total = dc_all_from(x@, open@, open_attr@, close@, 0);
        let ghost here = dc_all_from(x@, open@, open_attr@, close@, search_from as nat);
        proof {
            lemma_found(x@, open@, search_from as nat);
            lemma_found(x@, open_attr@, search_from as nat);
        }
        let a = find_chars(&x, &open, search_from);
        let b = find_chars(&x, &open_attr, search_from);
        let found = match (a, b) {
            (Some(p), Some(q)) => Some(if p <= q { p } else { q }),
            (Some(p), None) => Some(p),
            (None, q) => q,
        };
        match found {
            None => {
                assert(here =~= seq![]);
                assert(strs(results@) =~= total);
                return results;
            },
            Some(start) => {
                match dc_at_exec(&x, &close, start) {
                    None => {
                        assert(here =~= seq![]);
                        assert(strs(results@) =~= total);
                        return results;
                    },
                    Some((value, next)) => {
                        let ghost rest = dc_all_from(x@, open@, open_attr@, close@, next as nat);
                        if value.len() > 0 {
                            let d = html_decode_chars(&value);
                            let ghost before = results@;
                            results.push(string_of(&d));
                            proof {
                                assert(here == seq![html_decoded(value@)] + rest);
                                assert(strs(results@) =~= strs(before).push(d@));
                                assert(strs(results@) + rest =~= strs(before) + here);
                            }
                        } else {
                            assert(here == rest);
                        }
                        search_from = next;
                    },
                }
            },
        }
    }
}

// ---------------------------------------------------------------------------
// <meta name="..." content="...">
// ---------------------------------------------------------------------------

/// `name="NAME"`
pub open spec fn meta_pattern(name: Seq<char>) -> Seq<char> {
    "name=\""@ + name + "\""@
}

/// Where the region of the meta element found at `pos` ends: two characters
/// past the first `/>` after it, else two characters past the first `>`
/// after it, but no further than the end of the document.
pub open spec fn meta_region_end(opf: Seq<char>, pos: nat) -> Option<nat> {
    let tail = opf.skip(pos as int);
    match find(tail, "/>"@) {
        Some(i) => Some(pos + i + 2),
        None => match find_char(tail, '>') {
            Some(i) => if pos + i + 2 <= opf.len() {
                Some(pos + i + 2)
            } else {
                Some(opf.len())
            },
            None => None,
        },
    }
}

/// The `content` value of the `<meta name="NAME" content="...">` element:
/// the region from the last `<` before the first `name="NAME"` to the end of
/// that element is searched for `content="`, and the value runs to the next
/// quote. `None` when any of these is missing or the value is empty.
pub open spec fn meta_value(opf: Seq<char>, name: Seq<char>) -> Option<Seq<char>> {
    match find(opf, meta_pattern(name)) {
        None => None,
        Some(pos) => {
            let region_start: int = match rfind(opf.take(pos as int), seq!['<']) {
                Some(r) => r as int,
                None => 0,
            };
            match meta_region_end(opf, pos) {
                None => None,
                Some(region_end) => {
                    let region = opf.subrange(region_start, region_end as int);
                    match find(region, "content=\""@) {
                        None => None,
                        Some(cp) => {
                            let after = region.skip(cp + "content=\""@.len() as int);
                            match find_char(after, '"') {
                                None => None,
                                Some(end) => if end == 0 {
                                    None
                                } else {
                                    Some(after.take(end as int))
                                },
                            }
                        },
                    }
                },
            }
        },
    }
}

/// Extract the `content` of a `<meta name="..." content="...">` element.
pub fn extract_meta(opf: &str, name: &str) -> (out: Option<String>)
    ensures
        ostr(out) == meta_value(opf@, name@),
{
    let x = chars_of(opf);
    let nm = chars_of(name);
    let pattern = framed("name=\"", &nm, "\"");
    proof {
        lemma_found(x@, pattern@, 0);
    }
    let pos = match find_chars(&x, &pattern, 0) {
        None => return None,
        Some(p) => p,
    };
    assert(pos <= x.len());
    let head = slice_chars(&x, 0, pos);
    assert(head@ =~= x@.take(pos as int));
    let mut lt: Vec<char> = Vec::new();
    lt.push('<');
    assert(lt@ =~= seq!['<']);
    proof {
        lemma_rfind(head@, lt@);
    }
    let region_start = match rfind_chars(&head, &lt) {
        Some(r) => r,
        None => 0,
    };
    let tail = slice_chars(&x, pos, x.len());
    assert(tail@ =~= x@.skip(pos as int));
    let close = chars_of("/>");
    proof {
        reveal_strlit("/>");
        lemma_found(tail@, close@, 0);
        lemma_found(tail@, seq!['>'], 0);
    }
    let region_end = match find_chars(&tail, &close, 0) {
        Some(i) => pos + i + 2,
        None => match find_char_from(&tail, '>', 0) {
            Some(i) => if pos + i + 1 < x.len() {
                pos + i + 2
            } else {
                x.len()
            },
            None => return None,
        },
    };
    assert(region_start <= pos < region_end <= x.len());
    let region = slice_chars(&x, region_start, region_end);
    let cpat = chars_of("content=\"");
    proof {
        lemma_found(region@, cpat@, 0);
    }
    let cp = match find_chars(&region, &cpat, 0) {
        None => return None,
        Some(c) => c,
    };
    let after = slice_chars(&region, cp + cpat.len(), region.len());
    assert(after@ =~= region@.skip(cp + cpat@.len()));
    proof {
        lemma_found(after@, seq!['"'], 0);
    }
    let end = match find_char_from(&after, '"', 0) {
        None => return None,
        Some(e) => e,
    };
    if end == 0 {
        None
    } else {
        let v = slice_chars(&after, 0, end);
        assert(v@ =~= after@.take(end as int));
        Some(string_of(&v))
    }
}

// ---------------------------------------------------------------------------
// Names
// ---------------------------------------------------------------------------

/// Splitting `s` at white space, read left to right: the words completed so
/// far and the word being read.
pub open spec fn split_ws(s: Seq<char>) -> (Seq<Seq<char>>, Seq<char>)
    decreases s.len(),
{
    if s.len() == 0 {
        (seq![], seq![])
    } else {
        let (done, cur) = split_ws(s.drop_last());
        if is_ws(s.last()) {
            if cur.len() > 0 {
                (done.push(cur), seq![])
            } else {
                (done, seq![])
            }
        } else {
            (done, cur.push(s.last()))
        }
    }
}

/// The words of `s`: its maximal runs of non-white-space characters
/// (`str::split_whitespace`).
pub open spec fn words(s: Seq<char>) -> Seq<Seq<char>> {
    let (done, cur) = split_ws(s);
    if cur.len() > 0 {
        done.push(cur)
    } else {
        done
    }
}

/// The words joined by single spaces.
pub open spec fn join_spaces(ws: Seq<Seq<char>>) -> Seq<char>
    decreases ws.len(),
{
    if ws.len() == 0 {
        seq![]
    } else if ws.len() == 1 {
        ws[0]
    } else {
        join_spaces(ws.drop_last()) + seq![' '] + ws.last()
    }
}

/// The sort form of a name: with two or more words, the last word, a comma
/// and a space, then the other words joined by spaces ("First Last" becomes
/// "Last, First"); otherwise the name unchanged.
pub open spec fn sort_name_of(name: Seq<char>) -> Seq<char> {
    let parts = words(trim(name));
    if parts.len() >= 2 {
        parts.last() + ", "@ + join_spaces(parts.drop_last())
    } else {
        name
    }
}

/// The words of `s`, computed.
fn split_words(s: &Vec<char>) -> (out: Vec<Vec<char>>)
    ensures
        views(out@) == words(s@),
{
    let mut done: Vec<Vec<char>> = Vec::new();
    let mut cur: Vec<char> = Vec::new();
    let mut i: usize = 0;
    while i < s.len()
        invariant
            i <= s.len(),
            (views(done@), cur@) == split_ws(s@.take(i as int)),
        decreases s.len() - i,
    {
        let ghost before = s@.take(i as int);
        assert(s@.take(i as int + 1).drop_last() =~= before);
        let c = s[i];
        if is_whitespace(c) {
            if cur.len() > 0 {
                let ghost d = done@;
                let w = cur;
                done.push(w);
                cur = Vec::new();
                assert(views(done@) =~= views(d).push(w@));
            } else {
                cur = Vec::new();
            }
        } else {
            cur.push(c);
        }
        i = i + 1;
    }
    assert(s@.take(s.len() as int) =~= s@);
    if cur.len() > 0 {
        let ghost d = done@;
        let w = cur;
        done.push(w);
        assert(views(done@) =~= views(d).push(w@));
    }
    done
}

/// The words joined by single spaces, computed.
fn join_words(ws: &Vec<Vec<char>>, n: usize) -> (out: Vec<char>)
    requires
        n <= ws.len(),
    ensures
        out@ == join_spaces(views(ws@).take(n as int)),
{
    let mut out: Vec<char> = Vec::new();
    let mut i: usize = 0;
    while i < n
        invariant
            i <= n <= ws.len(),
            out@ == join_spaces(views(ws@).take(i as int)),
        decreases n - i,
    {
        let ghost t = views(ws@).take(i as int + 1);
        assert(t.drop_last() =~= views(ws@).take(i as int));
        assert(t.last() == ws@[i as int]@);
        if i > 0 {
            out.push(' ');
        }
        extend_chars(&mut out, &ws[i]);
        i = i + 1;
        proof {
            if i == 1 {
                assert(out@ =~= t[0]);
            } else {
                assert(out@ =~= join_spaces(t.drop_last()) + seq![' '] + t.last());
            }
        }
    }
    out
}

/// Generate the sort name of an author name (last name first for
/// "First Last" patterns).
pub fn sort_name(name: &str) -> (out: String)
    ensures
        out@ == sort_name_of(name@),
{
    let t = trim_str(name);
    let parts = split_words(&t);
    if parts.len() >= 2 {
        let n = parts.len();
        let mut out: Vec<char> = Vec::new();
        extend_chars(&mut out, &parts[n - 1]);
        extend_str(&mut out, ", ");
        let rest = join_words(&parts, n - 1);
        extend_chars(&mut out, &rest);
        proof {
            let ws = views(parts@);
            assert(ws.last() == parts@[n - 1]@);
            assert(ws.drop_last() =~= ws.take(n - 1));
        }
        string_of(&out)
    } else {
        string_from_str(name)
    }
}

// ---------------------------------------------------------------------------
// Book records
// ---------------------------------------------------------------------------

/// What a scan reads from an EPUB's OPF. The series index is kept as the
/// text found in the document; reading it as a number is left to the caller.
pub struct OpfMetadata {
    pub title: String,
    pub authors: Vec<String>,
    pub series_name: Option<String>,
    pub series_index_text: Option<String>,
    pub tags: Vec<String>,
    pub language: Option<String>,
    pub description: Option<String>,
}

/// The title of an OPF: its `dc:title`, or "Unknown".
pub open spec fn opf_title(opf: Seq<char>) -> Seq<char> {
    match dc_element(opf, "title"@) {
        Some(t) => t,
        None => "Unknown"@,
    }
}

/// The authors of an OPF: its `dc:creator` values, or just "Unknown".
pub open spec fn opf_authors(opf: Seq<char>) -> Seq<Seq<char>> {
    if dc_elements(opf, "creator"@).len() == 0 {
        seq!["Unknown"@]
    } else {
        dc_elements(opf, "creator"@)
    }
}

/// Parse an OPF document into the metadata of a scanned book.
pub fn opf_metadata(opf: &str) -> (out: OpfMetadata)
    ensures
        out.title@ == opf_title(opf@),
        strs(out.authors@) == opf_authors(opf@),
        ostr(out.series_name) == meta_value(opf@, "calibre:series"@),
        ostr(out.series_index_text) == meta_value(opf@, "calibre:series_index"@),
        strs(out.tags@) == dc_elements(opf@, "subject"@),
        ostr(out.language) == dc_element(opf@, "language"@),
        ostr(out.description) == dc_element(opf@, "description"@),
{
    let title = match extract_dc_element(opf, "title") {
        Some(t) => t,
        None => string_from_str("Unknown"),
    };
    let found_authors = extract_dc_elements(opf, "creator");
    let authors = if found_authors.len() == 0 {
        let mut v: Vec<String> = Vec::new();
        v.push(string_from_str("Unknown"));
        assert(strs(v@) =~= seq!["Unknown"@]);
        v
    } else {
        found_authors
    };
    OpfMetadata {
        title,
        authors,
        series_name: extract_meta(opf, "calibre:series"),
        series_index_text: extract_meta(opf, "calibre:series_index"),
        tags: extract_dc_elements(opf, "subject"),
        language: extract_dc_element(opf, "language"),
        description: extract_dc_element(opf, "description"),
    }
}

/// Authors and title read from a file name when the book carries no
/// metadata: "Author - Title" gives both (trimmed); otherwise the parent
/// folder's name (or "Unknown") is the author and the whole stem the title.
pub open spec fn stem_authors_title(stem: Seq<char>, parent: Option<Seq<char>>) -> (
    Seq<Seq<char>>,
    Seq<char>,
) {
    match find(stem, " - "@) {
        Some(i) => (seq![trim(stem.take(i as int))], trim(stem.skip(i + " - "@.len() as int))),
        None => (
            seq![
                match parent {
                    Some(p) => p,
                    None => "Unknown"@,
                },
            ],
            stem,
        ),
    }
}

/// Derive authors and title from a file's stem and its parent folder's name.
pub fn metadata_from_stem(stem: &str, parent_name: Option<&str>) -> (out: (Vec<String>, String))
    ensures
        (strs(out.0@), out.1@) == stem_authors_title(
            stem@,
            match parent_name {
                Some(p) => Some(p@),
                None => None,
            },
        ),
{
    let s = chars_of(stem);
    let sep = chars_of(" - ");
    proof {
        lemma_found(s@, sep@, 0);
    }
    let mut authors: Vec<String> = Vec::new();
    match find_chars(&s, &sep, 0) {
        Some(i) => {
            let a = slice_chars(&s, 0, i);
            let b = slice_chars(&s, i + sep.len(), s.len());
            assert(a@ =~= s@.take(i as int));
            assert(b@ =~= s@.skip(i + sep@.len()));
            let ta = trim_chars(&a);
            let tb = trim_chars(&b);
            authors.push(string_of(&ta));
            assert(strs(authors@) =~= seq![trim(a@)]);
            (authors, string_of(&tb))
        },
        None => {
            let author = match parent_name {
                Some(p) => string_from_str(p),
                None => string_from_str("Unknown"),
            };
            authors.push(author);
            assert(strs(authors@) =~= seq![authors@[0]@]);
            (authors, string_from_str(stem))
        },
    }
}

} // verus!
