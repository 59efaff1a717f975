//! Book listings: which books a listing keeps, and in what order it shows
//! them.
//!
//! The order is computed on keys: the caller turns each book into the key of
//! the requested field, and gets back the order in which to list the books.

use vstd::prelude::*;
use crate::access::{library_allowed, spec_allowed};
use crate::error::AppError;
use crate::folder::{lemma_picks_step, picks};
use crate::import_export::text_at_or_after;
use crate::pagination::{page_end, Paginated, PaginationParams};
use crate::text::{chars_of, find, find_chars, lowercase, str_eq, to_lowercase, chars_eq};

verus! {

/// Query parameters of `GET /api/v1/libraries/:id/books`.
pub struct ListBooksQuery {
    pub page: Option<u32>,
    pub per_page: Option<u32>,
    pub sort: Option<String>,
    pub dir: Option<String>,
    /// Search by title (case-insensitive contains).
    pub q: Option<String>,
    /// Filter by tag name (exact, case-insensitive).
    pub tag: Option<String>,
    /// Filter by language code (exact, case-insensitive).
    pub language: Option<String>,
    /// Filter by the user's reading status: reading | finished | unread | all.
    pub status: Option<String>,
}

// ---------------------------------------------------------------------------
// Filters
// ---------------------------------------------------------------------------

/// Whether the title contains the search text, ignoring case (both sides
/// lowercased).
pub open spec fn title_matches(title: Seq<char>, query: Seq<char>) -> bool {
    find(lowercase(title), lowercase(query)) is Some
}

/// Whether a book's title matches a search.
pub fn book_title_matches(title: &str, query: &str) -> (r: bool)
    ensures
        r == title_matches(title@, query@),
{
    let t = to_lowercase(title);
    let q = to_lowercase(query);
    let tc = chars_of(t.as_str());
    let qc = chars_of(q.as_str());
    find_chars(&tc, &qc, 0).is_some()
}

/// Whether one of `values` equals `wanted`, ignoring case (both lowercased).
pub open spec fn any_equal_ignoring_case(values: Seq<String>, wanted: Seq<char>) -> bool {
    exists|i: int| 0 <= i < values.len() && lowercase((#[trigger] values[i])@) == lowercase(wanted)
}

/// Whether a book has the tag (or language) asked for.
pub fn has_value_ignoring_case(values: &Vec<String>, wanted: &str) -> (r: bool)
    ensures
        r == any_equal_ignoring_case(values@, wanted@),
{
    let w = to_lowercase(wanted);
    let wc = chars_of(w.as_str());
    let mut i: usize = 0;
    while i < values.len()
        invariant
            i <= values.len(),
            wc@ == lowercase(wanted@),
            forall|j: int| 0 <= j < i ==> lowercase((#[trigger] values@[j])@) != lowercase(wanted@),
        decreases values.len() - i,
    {
        let v = to_lowercase(values[i].as_str());
        let vc = chars_of(v.as_str());
        if chars_eq(&vc, &wc) {
            assert(lowercase(values@[i as int]@) == lowercase(wanted@));
            return true;
        }
        i = i + 1;
    }
    false
}

/// The reading-status filter of a listing.
#[derive(Clone, Copy, PartialEq, Eq, Structural)]
pub enum StatusFilter {
    /// Every book.
    All,
    /// Books the user finished.
    Finished,
    /// Books in progress and not finished.
    Reading,
    /// Books neither finished nor in progress.
    Unread,
}

/// The filter a `status` parameter asks for (lowercased): `finished`,
/// `reading` or `unread`; anything else, `all` and the empty text included,
/// keeps every book.
pub open spec fn status_filter_of(status: Option<Seq<char>>) -> StatusFilter {
    match status {
        None => StatusFilter::All,
        Some(s) => if lowercase(s) == "finished"@ {
            StatusFilter::Finished
        } else if lowercase(s) == "reading"@ {
            StatusFilter::Reading
        } else if lowercase(s) == "unread"@ {
            StatusFilter::Unread
        } else {
            StatusFilter::All
        },
    }
}

/// The status names and the books they keep: `reading` (any case) keeps
/// the books in progress and not finished, `finished` the finished ones,
/// `unread` those neither finished nor in progress; no status, or any other
/// text, keeps every book.
pub open spec fn status_keeps_as_named(status: Option<Seq<char>>, f: StatusFilter) -> bool {
    forall|completed: bool, in_progress: bool|
        #[trigger] filter_keeps(f, completed, in_progress) == match status {
            Some(s) => if lowercase(s) == "reading"@ {
                in_progress && !completed
            } else if lowercase(s) == "finished"@ {
                completed
            } else if lowercase(s) == "unread"@ {
                !completed && !in_progress
            } else {
                true
            },
            None => true,
        }
}

/// Whether a status filter keeps a book, given whether it was finished and
/// whether it is in progress.
pub open spec fn filter_keeps(f: StatusFilter, completed: bool, in_progress: bool) -> bool {
    match f {
        StatusFilter::All => true,
        StatusFilter::Finished => completed,
        StatusFilter::Reading => in_progress && !completed,
        StatusFilter::Unread => !completed && !in_progress,
    }
}

/// The filter read from a status keeps the books its name says (see
/// [`status_keeps_as_named`]).
pub proof fn lemma_status_filter_keeps_as_named(status: Option<Seq<char>>)
    ensures
        status_keeps_as_named(status, status_filter_of(status)),
{
    assert forall|completed: bool, in_progress: bool|
        #[trigger] filter_keeps(status_filter_of(status), completed, in_progress) == match status {
            Some(s) => if lowercase(s) == "reading"@ {
                in_progress && !completed
            } else if lowercase(s) == "finished"@ {
                completed
            } else if lowercase(s) == "unread"@ {
                !completed && !in_progress
            } else {
                true
            },
            None => true,
        } by {
        match status {
            Some(s) => {
                if lowercase(s) == "finished"@ {
                    reveal_strlit("finished");
                    reveal_strlit("reading");
                    assert("finished"@.len() != "reading"@.len());
                } else if lowercase(s) == "unread"@ {
                    reveal_strlit("unread");
                    reveal_strlit("reading");
                    reveal_strlit("finished");
                    assert("unread"@.len() != "reading"@.len());
                    assert("unread"@.len() != "finished"@.len());
                }
            },
            None => {},
        }
    }
}

/// Read the `status` parameter.
pub fn status_filter(status: Option<&str>) -> (r: StatusFilter)
    ensures
        r == status_filter_of(
            match status {
                Some(s) => Some(s@),
                None => None,
            },
        ),
        status_keeps_as_named(
            match status {
                Some(s) => Some(s@),
                None => None,
            },
            r,
        ),
{
    proof {
        lemma_status_filter_keeps_as_named(
            match status {
                Some(s) => Some(s@),
                None => None,
            },
        );
    }
    match status {
        None => StatusFilter::All,
        Some(s) => {
            let l = to_lowercase(s);
            let ls = l.as_str();
            if str_eq(ls, "finished") {
                StatusFilter::Finished
            } else if str_eq(ls, "reading") {
                StatusFilter::Reading
            } else if str_eq(ls, "unread") {
                StatusFilter::Unread
            } else {
                StatusFilter::All
            }
        },
    }
}

/// Whether a book passes the status filter, given whether the user finished
/// it and whether it is in progress.
pub fn status_keeps(filter: StatusFilter, completed: bool, in_progress: bool) -> (r: bool)
    ensures
        r == match filter {
            StatusFilter::All => true,
            StatusFilter::Finished => completed,
            StatusFilter::Reading => in_progress && !completed,
            StatusFilter::Unread => !completed && !in_progress,
        },
{
    match filter {
        StatusFilter::All => true,
        StatusFilter::Finished => completed,
        StatusFilter::Reading => in_progress && !completed,
        StatusFilter::Unread => !completed && !in_progress,
    }
}

// ---------------------------------------------------------------------------
// Sort fields
// ---------------------------------------------------------------------------

/// The field a book listing is ordered by.
#[derive(Clone, Copy, PartialEq, Eq, Structural)]
pub enum BookSortField {
    Title,
    SortTitle,
    PubDate,
    AddedAt,
    Rating,
    SeriesIndex,
}

/// The field of a library listing: `title`, `sort_title`, `pubdate`,
/// `added_at`, `rating`, `series_index`; anything else sorts by sort title.
pub open spec fn library_sort_field_of(field: Option<Seq<char>>) -> BookSortField {
    match field {
        Some(f) => if f == "title"@ {
            BookSortField::Title
        } else if f == "pubdate"@ {
            BookSortField::PubDate
        } else if f == "added_at"@ {
            BookSortField::AddedAt
        } else if f == "rating"@ {
            BookSortField::Rating
        } else if f == "series_index"@ {
            BookSortField::SeriesIndex
        } else {
            BookSortField::SortTitle
        },
        None => BookSortField::SortTitle,
    }
}

/// The field of a genre listing: as for a library, but `author` sorts by
/// sort title too.
pub open spec fn genre_sort_field_of(field: Option<Seq<char>>) -> BookSortField {
    library_sort_field_of(field)
}

/// Read the sort field of a library or genre listing.
pub fn book_sort_field(field: Option<&str>) -> (r: BookSortField)
    ensures
        r == library_sort_field_of(
            match field {
                Some(f) => Some(f@),
                None => None,
            },
        ),
        r == genre_sort_field_of(
            match field {
                Some(f) => Some(f@),
                None => None,
            },
        ),
{
    match field {
        Some(f) => {
            if str_eq(f, "title") {
                BookSortField::Title
            } else if str_eq(f, "pubdate") {
                BookSortField::PubDate
            } else if str_eq(f, "added_at") {
                BookSortField::AddedAt
            } else if str_eq(f, "rating") {
                BookSortField::Rating
            } else if str_eq(f, "series_index") {
                BookSortField::SeriesIndex
            } else {
                BookSortField::SortTitle
            }
        },
        None => BookSortField::SortTitle,
    }
}

// ---------------------------------------------------------------------------
// Ordering
// ---------------------------------------------------------------------------

/// The key a book is ordered by: a text (compared character by character), or
/// an optional number (absent first).
pub enum SortKey {
    Text(Vec<char>),
    Number(Option<i64>),
}

/// Whether key `a` comes at or before key `b`.
pub open spec fn key_le(a: SortKey, b: SortKey) -> bool {
    match (a, b) {
        (SortKey::Text(x), SortKey::Text(y)) => text_at_or_after(y@, x@),
        (SortKey::Number(x), SortKey::Number(y)) => match (x, y) {
            (None, _) => true,
            (Some(_), None) => false,
            (Some(p), Some(q)) => p <= q,
        },
        (SortKey::Text(_), SortKey::Number(_)) => true,
        (SortKey::Number(_), SortKey::Text(_)) => false,
    }
}

/// The lowercase title key of a text.
pub fn text_key(s: &str) -> (k: SortKey)
    ensures
        k matches SortKey::Text(t) && t@ == lowercase(s@),
{
    let l = to_lowercase(s);
    SortKey::Text(chars_of(l.as_str()))
}

/// How many of the first entries of `order` have a key at or before `k`.
pub open spec fn count_le(order: Seq<usize>, keys: Seq<SortKey>, k: SortKey) -> nat
    decreases order.len(),
{
    if order.len() > 0 && key_le(keys[order[0] as int], k) {
        1 + count_le(order.drop_first(), keys, k)
    } else {
        0
    }
}

/// The stable ascending order of the first `n` keys: each index placed after
/// every earlier-placed index whose key is at or before its own.
pub open spec fn stable_order(keys: Seq<SortKey>, n: nat) -> Seq<usize>
    decreases n,
{
    if n == 0 {
        seq![]
    } else {
        let prev = stable_order(keys, (n - 1) as nat);
        prev.insert(count_le(prev, keys, keys[n - 1]) as int, (n - 1) as usize)
    }
}

/// The order in which to list items with these keys: stable ascending, then
/// reversed when descending.
pub open spec fn listing_order(keys: Seq<SortKey>, descending: bool) -> Seq<usize> {
    if descending {
        stable_order(keys, keys.len()).reverse()
    } else {
        stable_order(keys, keys.len())
    }
}

/// Whether key `a` comes at or before key `b`, computed.
fn key_le_exec(a: &SortKey, b: &SortKey) -> (r: bool)
    ensures
        r == key_le(*a, *b),
{
    match (a, b) {
        (SortKey::Text(x), SortKey::Text(y)) => text_at_or_after_exec(y, x),
        (SortKey::Number(x), SortKey::Number(y)) => match (x, y) {
            (None, _) => true,
            (Some(_), None) => false,
            (Some(p), Some(q)) => *p <= *q,
        },
        (SortKey::Text(_), SortKey::Number(_)) => true,
        (SortKey::Number(_), SortKey::Text(_)) => false,
    }
}

/// Whether text `a` comes at or after text `b`, computed.
fn text_at_or_after_exec(a: &Vec<char>, b: &Vec<char>) -> (r: bool)
    ensures
        r == text_at_or_after(a@, b@),
{
    let mut i: usize = 0;
    assert(a@.skip(0) =~= a@);
    assert(b@.skip(0) =~= b@);
    while i < a.len() && i < b.len() && a[i] == b[i]
        invariant
            i <= a.len(),
            i <= b.len(),
            text_at_or_after(a@, b@) == text_at_or_after(a@.skip(i as int), b@.skip(i as int)),
        decreases a.len() - i,
    {
        assert(a@.skip(i as int).drop_first() =~= a@.skip(i + 1));
        assert(b@.skip(i as int).drop_first() =~= b@.skip(i + 1));
        i = i + 1;
    }
    if i == b.len() {
        assert(b@.skip(i as int).len() == 0);
        true
    } else if i == a.len() {
        assert(a@.skip(i as int).len() == 0);
        false
    } else {
        assert(a@.skip(i as int)[0] == a@[i as int]);
        assert(b@.skip(i as int)[0] == b@[i as int]);
        a[i] > b[i]
    }
}

/// The order in which to list items with these keys: stable ascending by
/// key, reversed as a whole when descending (as a listing sorts, then
/// reverses).
pub fn order_by_keys(keys: &Vec<SortKey>, descending: bool) -> (out: Vec<usize>)
    ensures
        out@ == listing_order(keys@, descending),
{
    let mut order: Vec<usize> = Vec::new();
    let mut n: usize = 0;
    while n < keys.len()
        invariant
            n <= keys.len(),
            order@ == stable_order(keys@, n as nat),
            forall|i: int| 0 <= i < order@.len() ==> (#[trigger] order@[i]) < n,
        decreases keys.len() - n,
    {
        let mut p: usize = 0;
        assert(order@.skip(0) =~= order@);
        while p < order.len() && key_le_exec(&keys[order[p]], &keys[n])
            invariant
                p <= order.len(),
                n < keys.len(),
                forall|i: int| 0 <= i < order@.len() ==> (#[trigger] order@[i]) < n,
                count_le(order@, keys@, keys@[n as int]) == p + count_le(
                    order@.skip(p as int),
                    keys@,
                    keys@[n as int],
                ),
            decreases order.len() - p,
        {
            assert(order@.skip(p as int).drop_first() =~= order@.skip(p + 1));
            p = p + 1;
        }
        proof {
            if p < order.len() {
                assert(order@.skip(p as int)[0] == order@[p as int]);
            }
            assert(count_le(order@.skip(p as int), keys@, keys@[n as int]) == 0);
        }
        let ghost prev = order@;
        order.insert(p, n);
        proof {
            assert forall|i: int| 0 <= i < order@.len() implies (#[trigger] order@[i]) < n + 1 by {
                if i < p {
                    assert(order@[i] == prev[i]);
                } else if i > p {
                    assert(order@[i] == prev[i - 1]);
                }
            }
        }
        n = n + 1;
    }
    if descending {
        let mut rev: Vec<usize> = Vec::new();
        let mut i: usize = order.len();
        while i > 0
            invariant
                i <= order.len(),
                rev@ == order@.subrange(i as int, order@.len() as int).reverse(),
            decreases i,
        {
            i = i - 1;
            rev.push(order[i]);
            assert(rev@ =~= order@.subrange(i as int, order@.len() as int).reverse());
        }
        assert(order@.subrange(0, order@.len() as int) =~= order@);
        rev
    } else {
        order
    }
}

// ---------------------------------------------------------------------------
// What the order guarantees
// ---------------------------------------------------------------------------

/// The order of texts is total.
proof fn lemma_text_total(a: Seq<char>, b: Seq<char>)
    ensures
        text_at_or_after(a, b) || text_at_or_after(b, a),
    decreases a.len(),
{
    if a.len() > 0 && b.len() > 0 {
        if a[0] == b[0] {
            lemma_text_total(a.drop_first(), b.drop_first());
        } else {
            assert(a[0] > b[0] || b[0] > a[0]);
        }
    }
}

/// The order of texts is transitive.
proof fn lemma_text_transitive(a: Seq<char>, b: Seq<char>, c: Seq<char>)
    requires
        text_at_or_after(a, b),
        text_at_or_after(b, c),
    ensures
        text_at_or_after(a, c),
    decreases a.len(),
{
    if c.len() > 0 && b.len() > 0 && a.len() > 0 && a[0] == b[0] && b[0] == c[0] {
        lemma_text_transitive(a.drop_first(), b.drop_first(), c.drop_first());
    }
}

/// Keys are totally preordered.
proof fn lemma_key_total(a: SortKey, b: SortKey)
    ensures
        key_le(a, b) || key_le(b, a),
{
    match (a, b) {
        (SortKey::Text(x), SortKey::Text(y)) => lemma_text_total(x@, y@),
        _ => {},
    }
}

/// The key order is transitive.
proof fn lemma_key_transitive(a: SortKey, b: SortKey, c: SortKey)
    requires
        key_le(a, b),
        key_le(b, c),
    ensures
        key_le(a, c),
{
    match (a, b, c) {
        (SortKey::Text(x), SortKey::Text(y), SortKey::Text(z)) => lemma_text_transitive(z@, y@, x@),
        _ => {},
    }
}

/// `count_le` counts a prefix whose keys are at or before `k`, and stops at
/// one that is not.
proof fn lemma_count_le(order: Seq<usize>, keys: Seq<SortKey>, k: SortKey)
    ensures
        count_le(order, keys, k) <= order.len(),
        forall|i: int|
            0 <= i < count_le(order, keys, k) ==> key_le(keys[(#[trigger] order[i]) as int], k),
        count_le(order, keys, k) < order.len() ==> !key_le(
            keys[order[count_le(order, keys, k) as int] as int],
            k,
        ),
    decreases order.len(),
{
    if order.len() > 0 && key_le(keys[order[0] as int], k) {
        let t = order.drop_first();
        lemma_count_le(t, keys, k);
        assert forall|i: int| 0 <= i < count_le(order, keys, k) implies key_le(
            keys[(#[trigger] order[i]) as int],
            k,
        ) by {
            if i > 0 {
                assert(order[i] == t[i - 1]);
            }
        }
    }
}

/// The stable order lists each of the first `n` indices exactly once, and by
/// key: every index comes at or before the ones listed after it.
pub proof fn lemma_stable_order(keys: Seq<SortKey>, n: nat)
    requires
        n <= keys.len(),
        keys.len() <= usize::MAX,
    ensures
        stable_order(keys, n).len() == n,
        forall|i: int| 0 <= i < n ==> (#[trigger] stable_order(keys, n)[i]) < n,
        forall|i: int, j: int|
            0 <= i < j < n ==> stable_order(keys, n)[i] != stable_order(keys, n)[j],
        forall|i: int, j: int|
            0 <= i < j < n ==> key_le(
                keys[stable_order(keys, n)[i] as int],
                keys[stable_order(keys, n)[j] as int],
            ),
    decreases n,
{
    if n > 0 {
        let m = (n - 1) as nat;
        lemma_stable_order(keys, m);
        let prev = stable_order(keys, m);
        let k = keys[m as int];
        lemma_count_le(prev, keys, k);
        let p = count_le(prev, keys, k) as int;
        let out = prev.insert(p, m as usize);
        assert(out == stable_order(keys, n));
        assert forall|i: int| 0 <= i < n implies (#[trigger] out[i]) < n by {
            if i < p {
                assert(out[i] == prev[i]);
            } else if i > p {
                assert(out[i] == prev[i - 1]);
            }
        }
        assert(out[p] == m);
        assert forall|i: int, j: int| 0 <= i < j < n implies out[i] != out[j] by {
            if j < p {
                assert(out[i] == prev[i] && out[j] == prev[j]);
            } else if j == p {
                assert(out[i] == prev[i]);
                assert(prev[i] < m);
            } else if i < p {
                assert(out[i] == prev[i] && out[j] == prev[j - 1]);
            } else if i == p {
                assert(out[j] == prev[j - 1]);
                assert(prev[j - 1] < m);
            } else {
                assert(out[i] == prev[i - 1] && out[j] == prev[j - 1]);
            }
        }
        assert forall|i: int, j: int| 0 <= i < j < n implies key_le(
            keys[out[i] as int],
            keys[out[j] as int],
        ) by {
            if j < p {
                assert(out[i] == prev[i] && out[j] == prev[j]);
            } else if j == p {
                assert(out[i] == prev[i]);
                assert(out[j] == m);
            } else if i < p {
                assert(out[i] == prev[i] && out[j] == prev[j - 1]);
            } else if i == p {
                assert(out[i] == m);
                assert(out[j] == prev[j - 1]);
                lemma_key_total(keys[prev[p] as int], k);
                if j - 1 > p {
                    lemma_key_transitive(k, keys[prev[p] as int], keys[prev[j - 1] as int]);
                }
            } else {
                assert(out[i] == prev[i - 1] && out[j] == prev[j - 1]);
            }
        }
    }
}

// ---------------------------------------------------------------------------
// A page of a listing
// ---------------------------------------------------------------------------

/// Two keys that order alike: texts with the same characters, or the same
/// number.
pub open spec fn same_key(a: SortKey, b: SortKey) -> bool {
    match (a, b) {
        (SortKey::Text(x), SortKey::Text(y)) => x@ == y@,
        (SortKey::Number(x), SortKey::Number(y)) => x == y,
        _ => false,
    }
}

/// Two key lists of one length whose keys order alike, place by place.
pub open spec fn keys_agree(a: Seq<SortKey>, b: Seq<SortKey>) -> bool {
    &&& a.len() == b.len()
    &&& forall|i: int| 0 <= i < a.len() ==> same_key(#[trigger] a[i], b[i])
}

/// A copy of a key.
fn copy_key(k: &SortKey) -> (c: SortKey)
    ensures
        same_key(c, *k),
{
    match k {
        SortKey::Text(t) => SortKey::Text(t.clone()),
        SortKey::Number(n) => SortKey::Number(*n),
    }
}

/// Counting the keys at or before one does not depend on which of two
/// agreeing key lists is read.
proof fn lemma_count_le_agree(order: Seq<usize>, a: Seq<SortKey>, b: Seq<SortKey>, i: int)
    requires
        keys_agree(a, b),
        0 <= i < a.len(),
        forall|k: int| 0 <= k < order.len() ==> (#[trigger] order[k]) < a.len(),
    ensures
        count_le(order, a, a[i]) == count_le(order, b, b[i]),
    decreases order.len(),
{
    if order.len() > 0 {
        assert(same_key(a[order[0] as int], b[order[0] as int]));
        assert(same_key(a[i], b[i]));
        assert(key_le(a[order[0] as int], a[i]) == key_le(b[order[0] as int], b[i]));
        let rest = order.drop_first();
        assert forall|k: int| 0 <= k < rest.len() implies (#[trigger] rest[k]) < a.len() by {
            assert(rest[k] == order[k + 1]);
        }
        lemma_count_le_agree(rest, a, b, i);
    }
}

/// Agreeing key lists give the same stable order.
proof fn lemma_stable_order_agree(a: Seq<SortKey>, b: Seq<SortKey>, n: nat)
    requires
        keys_agree(a, b),
        n <= a.len(),
        a.len() <= usize::MAX,
    ensures
        stable_order(a, n) == stable_order(b, n),
    decreases n,
{
    if n > 0 {
        let m = (n - 1) as nat;
        lemma_stable_order_agree(a, b, m);
        lemma_stable_order(a, m);
        let prev = stable_order(a, m);
        assert forall|k: int| 0 <= k < prev.len() implies (#[trigger] prev[k]) < a.len() by {}
        lemma_count_le_agree(prev, a, b, m as int);
    }
}

/// Agreeing key lists give the same listing order.
pub proof fn lemma_listing_order_agree(a: Seq<SortKey>, b: Seq<SortKey>, descending: bool)
    requires
        keys_agree(a, b),
        a.len() <= usize::MAX,
    ensures
        listing_order(a, descending) == listing_order(b, descending),
{
    lemma_stable_order_agree(a, b, a.len());
}

/// What a book listing reads of a book: its title, tags and languages, the
/// user's reading state of it, and its key for the requested sort field
/// (made by the caller, as dates and series positions are its own).
pub struct ListedBook {
    pub title: String,
    pub tags: Vec<String>,
    pub languages: Vec<String>,
    pub completed: bool,
    pub in_progress: bool,
    pub sort_key: SortKey,
}

/// Whether a book passes a listing's filters: the title search, the tag,
/// the language, and the reading status.
pub open spec fn book_kept(b: ListedBook, query: ListBooksQuery) -> bool {
    &&& (query.q matches Some(s) ==> title_matches(b.title@, s@))
    &&& (query.tag matches Some(t) ==> any_equal_ignoring_case(b.tags@, t@))
    &&& (query.language matches Some(l) ==> any_equal_ignoring_case(b.languages@, l@))
    &&& match status_filter_of(
        match query.status {
            Some(s) => Some(s@),
            None => None,
        },
    ) {
        StatusFilter::All => true,
        StatusFilter::Finished => b.completed,
        StatusFilter::Reading => b.in_progress && !b.completed,
        StatusFilter::Unread => !b.completed && !b.in_progress,
    }
}

/// Whether the listing is in descending order (`dir=desc`).
pub open spec fn listing_descending(query: ListBooksQuery) -> bool {
    query.dir matches Some(d) && d@ == "desc"@
}

/// `pos` lists, in increasing order, exactly the positions of the books a
/// listing keeps.
pub open spec fn kept_positions(pos: Seq<usize>, books: Seq<ListedBook>, query: ListBooksQuery) -> bool {
    picks(pos, books.len() as int, |i: int| book_kept(books[i], query))
}

/// The sort keys of the kept books, in order.
pub open spec fn kept_keys(books: Seq<ListedBook>, pos: Seq<usize>) -> Seq<SortKey> {
    pos.map_values(|i: usize| books[i as int].sort_key)
}

/// The kept books in listing order: sorted stably by key, reversed when
/// descending.
pub open spec fn listing_of(books: Seq<ListedBook>, query: ListBooksQuery, pos: Seq<usize>) -> Seq<usize> {
    let order = listing_order(kept_keys(books, pos), listing_descending(query));
    Seq::new(pos.len(), |p: int| pos[order[p] as int])
}

/// `r` is the requested page of the listing of the books kept at `pos`;
/// its `total` counts every kept book.
pub open spec fn is_listing_page(r: Paginated<usize>, books: Seq<ListedBook>, query: ListBooksQuery, pos: Seq<usize>) -> bool {
    let listing = listing_of(books, query, pos);
    let pagination = PaginationParams { page: query.page, per_page: query.per_page };
    &&& r.total == listing.len()
    &&& r.page == pagination.spec_page()
    &&& r.per_page == pagination.spec_per_page()
    &&& r.items@ == (if pagination.spec_offset() >= listing.len() {
        Seq::<usize>::empty()
    } else {
        listing.subrange(
            pagination.spec_offset(),
            page_end(pagination.spec_offset(), pagination.spec_per_page() as int, listing.len() as int),
        )
    })
}

/// One page of a book listing, by position in `books`: the books the
/// filters keep, sorted by their keys (stable, reversed for `dir=desc`),
/// then cut into the requested page; `total` counts every kept book.
pub fn list_page(books: &Vec<ListedBook>, query: &ListBooksQuery) -> (r: Paginated<usize>)
    requires
        books.len() <= i64::MAX,
    ensures
        exists|pos: Seq<usize>|
            #[trigger] kept_positions(pos, books@, *query) && is_listing_page(r, books@, *query, pos),
{
    let filter = status_filter(
        match &query.status {
            Some(s) => Some(s.as_str()),
            None => None,
        },
    );
    let mut pos: Vec<usize> = Vec::new();
    let mut keys: Vec<SortKey> = Vec::new();
    let mut i: usize = 0;
    while i < books.len()
        invariant
            i <= books.len(),
            filter == status_filter_of(
                match query.status {
                    Some(s) => Some(s@),
                    None => None,
                },
            ),
            picks(pos@, i as int, |j: int| book_kept(books@[j], *query)),
            keys@.len() == pos@.len(),
            pos@.len() <= i,
            forall|k: int| 0 <= k < keys@.len() ==> same_key(#[trigger] keys@[k], books@[pos@[k] as int].sort_key),
        decreases books.len() - i,
    {
        let b = &books[i];
        let keep = (match &query.q {
            Some(s) => book_title_matches(b.title.as_str(), s.as_str()),
            None => true,
        }) && (match &query.tag {
            Some(t) => has_value_ignoring_case(&b.tags, t.as_str()),
            None => true,
        }) && (match &query.language {
            Some(l) => has_value_ignoring_case(&b.languages, l.as_str()),
            None => true,
        }) && status_keeps(filter, b.completed, b.in_progress);
        let ghost before = pos@;
        if keep {
            pos.push(i);
            keys.push(copy_key(&b.sort_key));
        }
        proof {
            lemma_picks_step(before, pos@, i as int, |j: int| book_kept(books@[j], *query), keep);
        }
        i = i + 1;
    }
    let descending = match &query.dir {
        Some(d) => str_eq(d.as_str(), "desc"),
        None => false,
    };
    let order = order_by_keys(&keys, descending);
    proof {
        assert(keys_agree(keys@, kept_keys(books@, pos@)));
        lemma_listing_order_agree(keys@, kept_keys(books@, pos@), descending);
        lemma_stable_order(keys@, keys@.len() as nat);
    }
    let ghost listing = listing_of(books@, *query, pos@);
    let mut out: Vec<usize> = Vec::new();
    let mut p: usize = 0;
    while p < order.len()
        invariant
            p <= order.len(),
            order@ == listing_order(keys@, descending),
            order@.len() == pos@.len(),
            pos@.len() <= i64::MAX,
            forall|k: int| 0 <= k < order@.len() ==> (#[trigger] order@[k]) < pos@.len(),
            listing == listing_of(books@, *query, pos@),
            listing_order(keys@, descending) == listing_order(kept_keys(books@, pos@), listing_descending(*query)),
            out@ == listing.take(p as int),
        decreases order.len() - p,
    {
        let k = order[p];
        out.push(pos[k]);
        assert(out@ =~= listing.take(p + 1));
        p = p + 1;
    }
    assert(out@ =~= listing);
    let pagination = PaginationParams { page: query.page, per_page: query.per_page };
    let r = Paginated::from_vec(out, &pagination);
    assert(kept_positions(pos@, books@, *query));
    r
}

/// A page of a library's book listing for a user with the access set
/// `allowed` (`None` = unrestricted): a library the user may not see is
/// answered as an unknown one, "library not found", and none of its books is
/// listed; otherwise the page is [`list_page`]'s.
pub fn list_library_page(
    allowed: &Option<Vec<String>>,
    library_id: &str,
    books: &Vec<ListedBook>,
    query: &ListBooksQuery,
) -> (r: Result<Paginated<usize>, AppError>)
    requires
        books.len() <= i64::MAX,
    ensures
        !spec_allowed(*allowed, library_id@) ==> (r matches Err(e) && e matches AppError::NotFound(m) && m@
            == "library not found"@),
        spec_allowed(*allowed, library_id@) ==> (r matches Ok(page) && exists|pos: Seq<usize>|
            #[trigger] kept_positions(pos, books@, *query) && is_listing_page(page, books@, *query, pos)),
{
    if !library_allowed(allowed, library_id) {
        proof {
            reveal_strlit("library");
            reveal_strlit(" not found");
            reveal_strlit("library not found");
            assert("library"@ + " not found"@ =~= "library not found"@);
        }
        return Err(AppError::not_found("library"));
    }
    Ok(list_page(books, query))
}

/// A listing with no search, tag or language filter keeps the books its
/// status names: with `status=reading` (any case) exactly the books in
/// progress and not finished, with `finished` the finished ones, with
/// `unread` those neither finished nor in progress.
pub proof fn lemma_listing_keeps_by_status(b: ListedBook, query: ListBooksQuery)
    requires
        query.q is None,
        query.tag is None,
        query.language is None,
    ensures
        query.status matches Some(s) && lowercase(s@) == "reading"@ ==> (book_kept(b, query) == (b.in_progress
            && !b.completed)),
        query.status matches Some(s) && lowercase(s@) == "finished"@ ==> (book_kept(b, query) == b.completed),
        query.status matches Some(s) && lowercase(s@) == "unread"@ ==> (book_kept(b, query) == (!b.completed
            && !b.in_progress)),
        query.status is None ==> book_kept(b, query),
{
    let st = match query.status {
        Some(s) => Some(s@),
        None => None,
    };
    lemma_status_filter_keeps_as_named(st);
    reveal_strlit("reading");
    reveal_strlit("finished");
    reveal_strlit("unread");
    assert("unread"@.len() != "reading"@.len() && "unread"@.len() != "finished"@.len());
    assert("finished"@.len() != "reading"@.len());
    assert(filter_keeps(status_filter_of(st), b.completed, b.in_progress) == book_kept(b, query));
}

} // verus!
