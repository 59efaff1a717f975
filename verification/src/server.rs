//! Server-level features: remote access settings, format conversion,
//! duplicate detection, library and genre listings.

use vstd::prelude::*;
use crate::books::{listing_order, order_by_keys, SortKey};
use crate::error::AppError;
use crate::folder::{lemma_picks_step, picks};
use crate::model::Author;
use crate::text::{
    chars_of, extend_chars, extend_str, lowercase, ostr, starts_with, starts_with_str, str_eq,
    string_from_str, string_of, strs, to_lowercase, to_uppercase, trim, trim_end_char,
    trim_end_char_exec, trim_str, uppercase,
};

verus! {

// ---------------------------------------------------------------------------
// Remote access
// ---------------------------------------------------------------------------

/// Body of the UPnP enable request.
pub struct EnableRemoteAccessRequest {
    pub external_port: Option<u16>,
}

/// Body for starting a Cloudflare tunnel: nothing for a quick tunnel, a
/// token and a hostname for a named one.
pub struct StartTunnelRequest {
    pub token: Option<String>,
    pub hostname: Option<String>,
}

/// Body for setting a manually managed public URL.
pub struct ManualUrlRequest {
    pub url: String,
}

/// The named tunnel asked for: both a token and a hostname, not blank, and
/// trimmed; otherwise a quick tunnel (`None`).
pub fn named_tunnel(request: &StartTunnelRequest) -> (r: Option<(String, String)>)
    ensures
        match (ostr(request.token), ostr(request.hostname)) {
            (Some(t), Some(h)) => if trim(t).len() > 0 && trim(h).len() > 0 {
                r matches Some((a, b)) && a@ == trim(t) && b@ == trim(h)
            } else {
                r is None
            },
            _ => r is None,
        },
{
    match (&request.token, &request.hostname) {
        (Some(t), Some(h)) => {
            let tt = trim_str(t.as_str());
            let th = trim_str(h.as_str());
            if tt.len() > 0 && th.len() > 0 {
                Some((string_of(&tt), string_of(&th)))
            } else {
                None
            }
        },
        _ => None,
    }
}

/// A manual public URL: trimmed, trailing slashes dropped, and `https://`
/// added when no scheme is given. `None` when nothing is left.
pub open spec fn manual_url_of(url: Seq<char>) -> Option<Seq<char>> {
    let t = trim_end_char(trim(url), '/');
    if t.len() == 0 {
        None
    } else if starts_with(t, "http://"@) || starts_with(t, "https://"@) {
        Some(t)
    } else {
        Some("https://"@ + t)
    }
}

/// Normalize a manually managed public URL.
pub fn normalize_manual_url(request: &ManualUrlRequest) -> (r: Option<String>)
    ensures
        ostr(r) == manual_url_of(request.url@),
{
    let t = trim_str(request.url.as_str());
    let u = trim_end_char_exec(&t, '/');
    if u.len() == 0 {
        return None;
    }
    if starts_with_str(&u, "http://") || starts_with_str(&u, "https://") {
        Some(string_of(&u))
    } else {
        let mut v = chars_of("https://");
        extend_chars(&mut v, &u);
        Some(string_of(&v))
    }
}

// ---------------------------------------------------------------------------
// Conversions
// ---------------------------------------------------------------------------

/// A conversion job as shown.
pub struct ConversionJobResponse {
    pub id: String,
    pub book_id: String,
    pub source_format: String,
    pub target_format: String,
    pub status: String,
    pub error_message: Option<String>,
    pub created_at: String,
    pub completed_at: Option<String>,
}

/// Body of `POST /api/v1/books/{id}/convert`.
pub struct ConvertRequest {
    pub target_format: String,
}

/// Whether the converters are available, and the formats they produce.
pub struct ConvertersResponse {
    pub available: bool,
    pub formats: Vec<String>,
}

/// The formats `ebook-convert` produces (uppercase).
pub open spec fn is_conversion_format(f: Seq<char>) -> bool {
    f == "EPUB"@ || f == "PDF"@ || f == "MOBI"@ || f == "AZW3"@ || f == "DOCX"@ || f == "TXT"@ || f
        == "RTF"@ || f == "CBZ"@
}

/// The target format of a conversion, uppercased, which must be one
/// `ebook-convert` produces.
pub fn conversion_target(request: &ConvertRequest) -> (r: Result<String, AppError>)
    ensures
        is_conversion_format(uppercase(request.target_format@)) ==> (r matches Ok(t) && t@
            == uppercase(request.target_format@)),
        !is_conversion_format(uppercase(request.target_format@)) ==> (r matches Err(e)
            && e matches AppError::BadRequest(m) && m@ == "Unsupported target format: "@
            + uppercase(request.target_format@)
            + ". Valid formats: EPUB, PDF, MOBI, AZW3, DOCX, TXT, RTF, CBZ"@),
{
    let t = to_uppercase(request.target_format.as_str());
    let s = t.as_str();
    if str_eq(s, "EPUB") || str_eq(s, "PDF") || str_eq(s, "MOBI") || str_eq(s, "AZW3") || str_eq(
        s,
        "DOCX",
    ) || str_eq(s, "TXT") || str_eq(s, "RTF") || str_eq(s, "CBZ") {
        return Ok(t);
    }
    let mut v = chars_of("Unsupported target format: ");
    extend_str(&mut v, s);
    extend_str(&mut v, ". Valid formats: EPUB, PDF, MOBI, AZW3, DOCX, TXT, RTF, CBZ");
    Err(AppError::BadRequest(string_of(&v)))
}

/// What the converters endpoint answers: the eight formats when
/// `ebook-convert` is available, none otherwise.
pub fn converters_response(available: bool) -> (out: ConvertersResponse)
    ensures
        out.available == available,
        available ==> strs(out.formats@) == seq![
            "EPUB"@,
            "PDF"@,
            "MOBI"@,
            "AZW3"@,
            "DOCX"@,
            "TXT"@,
            "RTF"@,
            "CBZ"@,
        ],
        !available ==> out.formats@.len() == 0,
{
    let mut formats: Vec<String> = Vec::new();
    if available {
        formats.push(string_from_str("EPUB"));
        formats.push(string_from_str("PDF"));
        formats.push(string_from_str("MOBI"));
        formats.push(string_from_str("AZW3"));
        formats.push(string_from_str("DOCX"));
        formats.push(string_from_str("TXT"));
        formats.push(string_from_str("RTF"));
        formats.push(string_from_str("CBZ"));
        assert(strs(formats@) =~= seq![
            "EPUB"@,
            "PDF"@,
            "MOBI"@,
            "AZW3"@,
            "DOCX"@,
            "TXT"@,
            "RTF"@,
            "CBZ"@,
        ]);
    }
    ConvertersResponse { available, formats }
}

/// The file name of a conversion's output: the source's stem, a dot, and the
/// target format in lowercase.
pub fn conversion_output_name(source_stem: &str, target_format: &str) -> (out: String)
    ensures
        out@ == source_stem@ + "."@ + lowercase(target_format@),
{
    let mut v = chars_of(source_stem);
    extend_str(&mut v, ".");
    let l = to_lowercase(target_format);
    extend_str(&mut v, l.as_str());
    string_of(&v)
}

// ---------------------------------------------------------------------------
// Duplicates
// ---------------------------------------------------------------------------

/// A book found in a duplicate group.
pub struct DuplicateBookEntry {
    pub id: i64,
    pub title: String,
    pub author_names: Vec<String>,
    pub library_name: String,
}

/// Texts joined by `|`.
pub open spec fn join_bars(ws: Seq<Seq<char>>) -> Seq<char>
    decreases ws.len(),
{
    if ws.len() == 0 {
        seq![]
    } else if ws.len() == 1 {
        ws[0]
    } else {
        join_bars(ws.drop_last()) + seq!['|'] + ws.last()
    }
}

/// The names in `order`, each trimmed and lowercased.
pub open spec fn normalized_names(names: Seq<String>, order: Seq<usize>) -> Seq<Seq<char>> {
    order.map_values(|i: usize| lowercase(trim(names[i as int]@)))
}

/// The key that groups possible duplicates: the trimmed lowercase title,
/// `||`, then the trimmed lowercase author names (in sorted order) joined by
/// `|`.
pub open spec fn duplicate_key_of(title: Seq<char>, names: Seq<String>, order: Seq<usize>) -> Seq<
    char,
> {
    lowercase(trim(title)) + "||"@ + join_bars(normalized_names(names, order))
}

/// The keys of texts, as written.
pub open spec fn text_keys_match(names: Seq<String>, keys: Seq<SortKey>) -> bool {
    keys.len() == names.len() && forall|i: int|
        0 <= i < keys.len() ==> ((#[trigger] keys[i]) matches SortKey::Text(t) && t@ == names[i]@)
}

/// The grouping key of a book: its author names are sorted first. Returns
/// the key and the sorted order of the names (positions into
/// `author_names`).
pub fn duplicate_group_key(title: &str, author_names: &Vec<String>) -> (r: (String, Vec<usize>))
    ensures
        exists|keys: Seq<SortKey>|
            text_keys_match(author_names@, keys) && r.1@ == #[trigger] listing_order(keys, false),
        r.0@ == duplicate_key_of(title@, author_names@, r.1@),
{
    let mut keys: Vec<SortKey> = Vec::new();
    let mut i: usize = 0;
    while i < author_names.len()
        invariant
            i <= author_names.len(),
            keys@.len() == i,
            forall|k: int|
                0 <= k < i ==> ((#[trigger] keys@[k]) matches SortKey::Text(t) && t@
                    == author_names@[k]@),
        decreases author_names.len() - i,
    {
        keys.push(SortKey::Text(chars_of(author_names[i].as_str())));
        i = i + 1;
    }
    let order = order_by_keys(&keys, false);
    assert(text_keys_match(author_names@, keys@));
    proof {
        crate::books::lemma_stable_order(keys@, keys@.len());
    }
    let t = trim_str(title);
    let ts = string_of(&t);
    let lt = to_lowercase(ts.as_str());
    let mut v = chars_of(lt.as_str());
    extend_str(&mut v, "||");
    let ghost head = v@;
    let mut j: usize = 0;
    while j < order.len()
        invariant
            j <= order.len(),
            order@.len() == author_names@.len(),
            forall|k: int| 0 <= k < order@.len() ==> (#[trigger] order@[k]) < author_names@.len(),
            v@ == head + join_bars(normalized_names(author_names@, order@.take(j as int))),
        decreases order.len() - j,
    {
        let ghost names_j = normalized_names(author_names@, order@.take(j + 1));
        assert(names_j.drop_last() =~= normalized_names(author_names@, order@.take(j as int)));
        assert(names_j.last() == lowercase(trim(author_names@[order@[j as int] as int]@)));
        if j > 0 {
            v.push('|');
        }
        let name = trim_str(author_names[order[j]].as_str());
        let ns = string_of(&name);
        let ln = to_lowercase(ns.as_str());
        extend_str(&mut v, ln.as_str());
        j = j + 1;
        proof {
            if j == 1 {
                assert(v@ =~= head + names_j[0]);
            } else {
                assert(v@ =~= head + (join_bars(names_j.drop_last()) + seq!['|'] + names_j.last()));
            }
        }
    }
    assert(order@.take(order.len() as int) =~= order@);
    (string_of(&v), order)
}

// ---------------------------------------------------------------------------
// Files, libraries and genres
// ---------------------------------------------------------------------------

/// Query of `GET /api/v1/books/:id/file`.
pub struct FileQuery {
    pub format: Option<String>,
}

/// A library as listed.
pub struct LibrarySummary {
    pub id: String,
    pub name: String,
    pub library_type: String,
    pub source_kind: String,
}

/// A library with its custom columns.
pub struct LibraryDetail {
    pub summary: LibrarySummary,
    pub custom_columns: Vec<crate::model::CustomColumn>,
}

/// What a library creation answers.
pub struct CreateLibraryResponse {
    pub id: String,
    pub name: String,
    pub library_type: String,
}

/// A genre with its book count.
pub struct GenreEntry {
    pub name: String,
    pub book_count: i64,
}

/// Query of a genre's book listing.
pub struct GenreBooksQuery {
    pub page: Option<u32>,
    pub per_page: Option<u32>,
    pub sort: Option<String>,
    pub dir: Option<String>,
}

/// The total count of genre `name` among the first `n` entries.
pub open spec fn genre_total(entries: Seq<(String, i64)>, name: Seq<char>, n: int) -> int
    decreases n,
{
    if n <= 0 {
        0
    } else {
        genre_total(entries, name, n - 1) + if entries[n - 1].0@ == name {
            entries[n - 1].1 as int
        } else {
            0int
        }
    }
}

/// Merge genre counts from several libraries: one entry per genre name
/// (exact match), in the order names first appear, with the sum of its
/// counts.
pub fn merge_genre_counts(entries: &Vec<(String, i64)>) -> (out: Vec<GenreEntry>)
    requires
        forall|i: int| 0 <= i < entries@.len() ==> 0 <= #[trigger] entries@[i].1 <= 1_000_000_000,
        entries@.len() <= 1_000_000_000,
    ensures
        forall|i: int, j: int| 0 <= i < j < out@.len() ==> out@[i].name@ != out@[j].name@,
        forall|i: int|
            0 <= i < out@.len() ==> (#[trigger] out@[i]).book_count == genre_total(
                entries@,
                out@[i].name@,
                entries@.len() as int,
            ),
        forall|k: int|
            0 <= k < entries@.len() ==> exists|i: int|
                0 <= i < out@.len() && (#[trigger] out@[i]).name@ == (#[trigger] entries@[k]).0@,
{
    let mut out: Vec<GenreEntry> = Vec::new();
    let mut n: usize = 0;
    while n < entries.len()
        invariant
            n <= entries.len(),
            entries@.len() <= 1_000_000_000,
            forall|i: int| 0 <= i < entries@.len() ==> 0 <= #[trigger] entries@[i].1 <= 1_000_000_000,
            forall|i: int, j: int| 0 <= i < j < out@.len() ==> out@[i].name@ != out@[j].name@,
            forall|i: int|
                0 <= i < out@.len() ==> (#[trigger] out@[i]).book_count == genre_total(
                    entries@,
                    out@[i].name@,
                    n as int,
                ),
            forall|i: int|
                0 <= i < out@.len() ==> 0 <= (#[trigger] out@[i]).book_count <= n * 1_000_000_000,
            forall|k: int|
                0 <= k < n ==> exists|i: int|
                    0 <= i < out@.len() && (#[trigger] out@[i]).name@ == (
                    #[trigger] entries@[k]).0@,
            forall|name: Seq<char>|
                (forall|i: int| 0 <= i < out@.len() ==> (#[trigger] out@[i]).name@ != name)
                    ==> genre_total(entries@, name, n as int) == 0,
        decreases entries.len() - n,
    {
        let (ref name, count) = entries[n];
        let mut p: usize = 0;
        while p < out.len() && !str_eq(out[p].name.as_str(), name.as_str())
            invariant
                p <= out.len(),
                forall|i: int| 0 <= i < p ==> (#[trigger] out@[i]).name@ != name@,
            decreases out.len() - p,
        {
            p = p + 1;
        }
        let ghost before = out@;
        assert(name@ == entries@[n as int].0@);
        if p < out.len() {
            let old_count = out[p].book_count;
            let e = GenreEntry { name: out[p].name.clone(), book_count: old_count + count };
            out.set(p, e);
        } else {
            out.push(GenreEntry { name: name.clone(), book_count: count });
        }
        proof {
            assert(out@[p as int].name@ == name@);
            assert forall|i: int| 0 <= i < before.len() implies (#[trigger] out@[i]).name@
                == before[i].name@ by {
                if i != p {
                    assert(out@[i] == before[i]);
                }
            }
            assert forall|i: int|
                0 <= i < out@.len() implies (#[trigger] out@[i]).book_count == genre_total(
                entries@,
                out@[i].name@,
                n + 1,
            ) by {
                if i != p {
                    assert(out@[i] == before[i]);
                    assert(before[i].name@ != name@);
                } else if p == before.len() {
                    assert(genre_total(entries@, name@, n as int) == 0);
                }
            }
            assert forall|k: int| 0 <= k < n + 1 implies exists|i: int|
                0 <= i < out@.len() && (#[trigger] out@[i]).name@ == (
                #[trigger] entries@[k]).0@ by {
                if k == n {
                    assert(out@[p as int].name@ == entries@[k].0@);
                } else {
                    let i = choose|i: int|
                        0 <= i < before.len() && (#[trigger] before[i]).name@ == entries@[k].0@;
                    assert(out@[i].name@ == entries@[k].0@);
                }
            }
            assert forall|nm: Seq<char>|
                (forall|i: int| 0 <= i < out@.len() ==> (#[trigger] out@[i]).name@ != nm)
                    implies #[trigger] genre_total(entries@, nm, n + 1) == 0 by {
                assert(out@[p as int].name@ != nm);
                assert forall|i: int| 0 <= i < before.len() implies (#[trigger] before[i]).name@
                    != nm by {
                    assert(out@[i].name@ != nm);
                }
                assert(genre_total(entries@, nm, n as int) == 0);
                assert(entries@[n as int].0@ != nm);
            }
        }
        n = n + 1;
    }
    out
}


/// Whether an author at position `k` of a library's authors is listed
/// under a genre: its id is among the genre's books' authors, it was not
/// listed from an earlier library (`seen`), and no earlier author of this
/// library has its id.
pub open spec fn genre_author_picked(genre_ids: Seq<i64>, authors: Seq<Author>, seen: Seq<i64>, k: int) -> bool {
    &&& genre_ids.contains(authors[k].id)
    &&& !seen.contains(authors[k].id)
    &&& forall|j: int| 0 <= j < k ==> (#[trigger] authors[j]).id != authors[k].id
}

/// The authors of a library listed under a genre, by position, in the
/// library's order; their ids are added to `seen`.
pub fn pick_genre_authors(genre_author_ids: &Vec<i64>, authors: &Vec<Author>, seen: &mut Vec<i64>) -> (picked: Vec<usize>)
    ensures
        picks(picked@, authors@.len() as int, |k: int| genre_author_picked(genre_author_ids@, authors@, old(seen)@, k)),
        final(seen)@ == old(seen)@ + picked@.map_values(|k: usize| authors@[k as int].id),
{
    let ghost seen0 = seen@;
    let mut picked: Vec<usize> = Vec::new();
    let mut k: usize = 0;
    while k < authors.len()
        invariant
            k <= authors.len(),
            picks(picked@, k as int, |j: int| genre_author_picked(genre_author_ids@, authors@, seen0, j)),
            seen@ == seen0 + picked@.map_values(|j: usize| authors@[j as int].id),
            forall|i: int| 0 <= i < k ==> seen@.contains(#[trigger] authors@[i].id) || !genre_author_ids@.contains(authors@[i].id),
        decreases authors.len() - k,
    {
        let id = authors[k].id;
        let keep = contains_id(genre_author_ids, id) && !contains_id(seen, id);
        let ghost before = picked@;
        let ghost seen_before = seen@;
        proof {
            if seen0.contains(id) {
                let p = choose|p: int| 0 <= p < seen0.len() && seen0[p] == id;
                assert(seen@[p] == id);
            }
            if keep {
                assert forall|j: int| 0 <= j < k implies (#[trigger] authors@[j]).id != authors@[k as int].id by {
                    if authors@[j].id == id {
                        assert(seen@.contains(authors@[j].id));
                    }
                }
            } else if genre_author_ids@.contains(id) {
                assert(seen@.contains(id));
                let p = choose|p: int| 0 <= p < seen@.len() && seen@[p] == id;
                if p >= seen0.len() {
                    let q = p - seen0.len();
                    let j = picked@[q] as int;
                    assert(seen@[p] == authors@[j].id);
                    assert(0 <= j < k);
                    assert(authors@[j].id == id);
                }
            }
        }
        if keep {
            picked.push(k);
            seen.push(id);
        }
        proof {
            assert forall|i: int| 0 <= i < k + 1 implies seen@.contains(#[trigger] authors@[i].id)
                || !genre_author_ids@.contains(authors@[i].id) by {
                if i < k && seen_before.contains(authors@[i].id) {
                    let p = choose|p: int| 0 <= p < seen_before.len() && seen_before[p] == authors@[i].id;
                    assert(seen@[p] == authors@[i].id);
                }
                if i == k && keep {
                    assert(seen@[seen@.len() - 1] == id);
                }
            }
            lemma_picks_step(before, picked@, k as int, |j: int| genre_author_picked(genre_author_ids@, authors@, seen0, j), keep);
            assert(seen@ =~= seen0 + picked@.map_values(|j: usize| authors@[j as int].id));
        }
        k = k + 1;
    }
    picked
}

/// Whether `id` is listed.
fn contains_id(ids: &Vec<i64>, id: i64) -> (r: bool)
    ensures
        r == ids@.contains(id),
{
    let mut i: usize = 0;
    while i < ids.len()
        invariant
            i <= ids.len(),
            forall|j: int| 0 <= j < i ==> ids@[j] != id,
        decreases ids.len() - i,
    {
        if ids[i] == id {
            return true;
        }
        i = i + 1;
    }
    false
}

/// The series ids of a genre's books in a library that were not listed yet:
/// each once, in order of first appearance.
pub open spec fn genre_series_ids(book_series: Seq<Option<i64>>, seen: Seq<i64>) -> Seq<i64>
    decreases book_series.len(),
{
    if book_series.len() == 0 {
        seq![]
    } else {
        let rest = genre_series_ids(book_series.drop_last(), seen);
        match book_series.last() {
            Some(id) => if seen.contains(id) || rest.contains(id) {
                rest
            } else {
                rest.push(id)
            },
            None => rest,
        }
    }
}

/// The series of a library's genre books still to be listed (the caller
/// looks each one up and marks it seen when found).
pub fn pick_genre_series(book_series_ids: &Vec<Option<i64>>, seen: &Vec<i64>) -> (out: Vec<i64>)
    ensures
        out@ == genre_series_ids(book_series_ids@, seen@),
{
    let mut out: Vec<i64> = Vec::new();
    let mut i: usize = 0;
    while i < book_series_ids.len()
        invariant
            i <= book_series_ids.len(),
            out@ == genre_series_ids(book_series_ids@.take(i as int), seen@),
        decreases book_series_ids.len() - i,
    {
        assert(book_series_ids@.take(i + 1).drop_last() =~= book_series_ids@.take(i as int));
        match book_series_ids[i] {
            Some(id) => {
                if !contains_id(seen, id) && !contains_id(&out, id) {
                    out.push(id);
                }
            },
            None => {},
        }
        i = i + 1;
    }
    assert(book_series_ids@.take(book_series_ids.len() as int) =~= book_series_ids@);
    out
}

/// The order of a genre's books, given each book's key (for the field that
/// `book_sort_field` reads from the `sort` parameter): a stable ascending
/// sort, reversed as a whole when the direction is `"desc"`.
pub fn sort_books(keys: &Vec<SortKey>, sort_direction: &Option<String>) -> (out: Vec<usize>)
    ensures
        out@ == listing_order(
            keys@,
            match ostr(*sort_direction) {
                Some(d) => d == "desc"@,
                None => false,
            },
        ),
{
    let descending = match sort_direction {
        Some(d) => str_eq(d.as_str(), "desc"),
        None => false,
    };
    order_by_keys(keys, descending)
}

} // verus!
