//! A folder library once scanned: the books found, and the authors, series
//! and genres they make up.
//!
//! Walking the directories and reading the files is the caller's work; the
//! scan's result is handed over as a list of [`ScannedBook`]s. A book's
//! series position is kept as the text the package document holds; reading it
//! as a number, and ordering by it, is left to the caller.

use vstd::prelude::*;
use crate::books::{listing_order, order_by_keys, SortKey};
use crate::model::{Author, Series};
use crate::scan::{
    dc_element, dc_elements, epub_opf, meta_value, metadata_from_stem,
    opf_authors, opf_metadata, opf_title, read_epub_opf, sort_name, sort_name_of, stem_authors_title,
};
use crate::text::{
    chars_of, lowercase, ostr, str_eq, string_from_str, strs, to_lowercase, to_uppercase, uppercase,
};

verus! {

/// What a scan keeps of one book file.
pub struct ScannedBook {
    pub rel_path: String,
    pub title: String,
    pub authors: Vec<String>,
    pub series_name: Option<String>,
    /// The `calibre:series_index` text, as written.
    pub series_index_text: Option<String>,
    pub tags: Vec<String>,
    pub language: Option<String>,
    pub description: Option<String>,
    pub file_size: u64,
    pub format: String,
}

/// `b` is the book read from the package document `opf`: its title (or
/// "Unknown"), its creators (or "Unknown"), its Calibre series and series
/// position, its subjects as tags, its language and description.
pub open spec fn is_opf_book(b: ScannedBook, opf: Seq<char>, rel_path: Seq<char>, file_size: u64) -> bool {
    &&& b.rel_path@ == rel_path
    &&& b.title@ == opf_title(opf)
    &&& strs(b.authors@) == opf_authors(opf)
    &&& ostr(b.series_name) == meta_value(opf, "calibre:series"@)
    &&& ostr(b.series_index_text) == meta_value(opf, "calibre:series_index"@)
    &&& strs(b.tags@) == dc_elements(opf, "subject"@)
    &&& ostr(b.language) == dc_element(opf, "language"@)
    &&& ostr(b.description) == dc_element(opf, "description"@)
    &&& b.file_size == file_size
    &&& b.format@ == "EPUB"@
}

/// `b` is the book made of a file's name alone: authors and title from the
/// stem ("Author - Title"), else the parent folder as the author; nothing
/// else is known.
pub open spec fn is_path_book(
    b: ScannedBook,
    stem: Seq<char>,
    parent_name: Option<Seq<char>>,
    rel_path: Seq<char>,
    format: Seq<char>,
    file_size: u64,
) -> bool {
    &&& b.rel_path@ == rel_path
    &&& (strs(b.authors@), b.title@) == stem_authors_title(stem, parent_name)
    &&& b.series_name is None
    &&& b.series_index_text is None
    &&& b.tags@.len() == 0
    &&& b.language is None
    &&& b.description is None
    &&& b.file_size == file_size
    &&& b.format@ == format
}

/// An optional text by its view.
pub open spec fn ostr_ref(v: Option<&str>) -> Option<Seq<char>> {
    match v {
        Some(p) => Some(p@),
        None => None,
    }
}

/// The book a scan makes of an EPUB from its package document.
pub fn scanned_from_opf(opf: &str, rel_path: &str, file_size: u64) -> (b: ScannedBook)
    ensures
        is_opf_book(b, opf@, rel_path@, file_size),
{
    let m = opf_metadata(opf);
    ScannedBook {
        rel_path: string_from_str(rel_path),
        title: m.title,
        authors: m.authors,
        series_name: m.series_name,
        series_index_text: m.series_index_text,
        tags: m.tags,
        language: m.language,
        description: m.description,
        file_size,
        format: string_from_str("EPUB"),
    }
}

/// The book a scan makes of a file it cannot read: authors and title from
/// the file's stem ("Author - Title"), else the parent folder as the author;
/// nothing else is known.
pub fn scanned_from_path(stem: &str, parent_name: Option<&str>, rel_path: &str, format: &str, file_size: u64) -> (b: ScannedBook)
    ensures
        is_path_book(b, stem@, ostr_ref(parent_name), rel_path@, format@, file_size),
{
    let (authors, title) = metadata_from_stem(stem, parent_name);
    ScannedBook {
        rel_path: string_from_str(rel_path),
        title,
        authors,
        series_name: None,
        series_index_text: None,
        tags: Vec::new(),
        language: None,
        description: None,
        file_size,
        format: string_from_str(format),
    }
}

/// The format a scan records for a file extension, in any case: EPUB, PDF,
/// CBZ or MOBI; other files are skipped.
pub open spec fn scan_format_of(extension: Seq<char>) -> Option<Seq<char>> {
    let f = uppercase(extension);
    if f == "EPUB"@ || f == "PDF"@ || f == "CBZ"@ || f == "MOBI"@ {
        Some(f)
    } else {
        None
    }
}

/// The format of a file with this extension, if a scan picks it up.
pub fn scan_format(extension: &str) -> (r: Option<String>)
    ensures
        ostr(r) == scan_format_of(extension@),
{
    let f = to_uppercase(extension);
    let s = f.as_str();
    if str_eq(s, "EPUB") || str_eq(s, "PDF") || str_eq(s, "CBZ") || str_eq(s, "MOBI") {
        Some(f)
    } else {
        None
    }
}

/// The book a scan makes of an EPUB file's bytes: from its package document
/// when that can be read, else from the file's name.
pub fn scan_epub(epub: &[u8], stem: &str, parent_name: Option<&str>, rel_path: &str, file_size: u64) -> (b: ScannedBook)
    ensures
        match epub_opf(epub@) {
            Ok(opf) => is_opf_book(b, opf, rel_path@, file_size),
            Err(_) => is_path_book(b, stem@, ostr_ref(parent_name), rel_path@, "EPUB"@, file_size),
        },
{
    match read_epub_opf(epub) {
        Ok(opf) => scanned_from_opf(opf.as_str(), rel_path, file_size),
        Err(_) => scanned_from_path(stem, parent_name, rel_path, "EPUB", file_size),
    }
}

// ---------------------------------------------------------------------------
// Distinct names and their counts
// ---------------------------------------------------------------------------

/// The distinct texts of `s`, in order of first appearance.
pub open spec fn distinct(s: Seq<Seq<char>>) -> Seq<Seq<char>>
    decreases s.len(),
{
    if s.len() == 0 {
        seq![]
    } else {
        let d = distinct(s.drop_last());
        if d.contains(s.last()) {
            d
        } else {
            d.push(s.last())
        }
    }
}

/// How many times `x` occurs in `s`.
pub open spec fn count_of(s: Seq<Seq<char>>, x: Seq<char>) -> nat
    decreases s.len(),
{
    if s.len() == 0 {
        0
    } else {
        count_of(s.drop_last(), x) + if s.last() == x {
            1nat
        } else {
            0nat
        }
    }
}

/// A text is among the distinct texts exactly when it occurs.
pub proof fn lemma_distinct_contains(s: Seq<Seq<char>>, x: Seq<char>)
    ensures
        distinct(s).contains(x) <==> s.contains(x),
    decreases s.len(),
{
    if s.len() > 0 {
        let t = s.drop_last();
        let l = s.last();
        lemma_distinct_contains(t, x);
        assert(s =~= t.push(l));
        assert(t.push(l).contains(x) <==> (t.contains(x) || x == l)) by {
            if t.push(l).contains(x) && x != l {
                let i = choose|i: int| 0 <= i < t.push(l).len() && t.push(l)[i] == x;
                assert(i < t.len());
                assert(t[i] == x);
            }
            if t.contains(x) {
                let i = choose|i: int| 0 <= i < t.len() && t[i] == x;
                assert(t.push(l)[i] == x);
            }
            if x == l {
                assert(t.push(l)[t.len() as int] == x);
            }
        }
        let d = distinct(t);
        if d.contains(l) {
            lemma_distinct_contains(t, l);
        } else {
            assert(d.push(l).contains(x) <==> (d.contains(x) || x == l)) by {
                if d.push(l).contains(x) && x != l {
                    let i = choose|i: int| 0 <= i < d.push(l).len() && d.push(l)[i] == x;
                    assert(i < d.len());
                    assert(d[i] == x);
                }
                if d.contains(x) {
                    let i = choose|i: int| 0 <= i < d.len() && d[i] == x;
                    assert(d.push(l)[i] == x);
                }
                if x == l {
                    assert(d.push(l)[d.len() as int] == x);
                }
            }
        }
    }
}

/// A text that does not occur is counted zero times.
pub proof fn lemma_count_absent(s: Seq<Seq<char>>, x: Seq<char>)
    requires
        !s.contains(x),
    ensures
        count_of(s, x) == 0,
    decreases s.len(),
{
    if s.len() > 0 {
        assert(s.last() != x) by {
            assert(s[s.len() - 1] == s.last());
        }
        assert forall|i: int| 0 <= i < s.drop_last().len() implies s.drop_last()[i] != x by {
            assert(s[i] == s.drop_last()[i]);
        }
        lemma_count_absent(s.drop_last(), x);
    }
}

/// Every text of `s`, paired with how many times it occurs.
pub open spec fn counted(s: Seq<Seq<char>>, names: Seq<String>, counts: Seq<i64>) -> bool {
    &&& strs(names) == distinct(s)
    &&& counts.len() == names.len()
    &&& forall|k: int| 0 <= k < counts.len() ==> counts[k] == count_of(s, #[trigger] names[k]@)
}

/// The distinct texts of `occurrences` in order of first appearance, with how
/// many times each occurs.
pub fn distinct_counts(occurrences: &Vec<String>) -> (r: (Vec<String>, Vec<i64>))
    requires
        occurrences@.len() < i64::MAX,
    ensures
        counted(strs(occurrences@), r.0@, r.1@),
{
    let mut names: Vec<String> = Vec::new();
    let mut counts: Vec<i64> = Vec::new();
    let mut i: usize = 0;
    assert(strs(names@) =~= distinct(strs(occurrences@).take(0)));
    while i < occurrences.len()
        invariant
            i <= occurrences.len(),
            occurrences@.len() < i64::MAX,
            counted(strs(occurrences@).take(i as int), names@, counts@),
            forall|k: int| 0 <= k < counts@.len() ==> 0 <= #[trigger] counts@[k] <= i,
        decreases occurrences.len() - i,
    {
        let ghost pre = strs(occurrences@).take(i as int);
        let ghost next = strs(occurrences@).take(i + 1);
        let x = &occurrences[i];
        assert(next.drop_last() =~= pre);
        assert(next.last() == x@);
        let mut k: usize = 0;
        while k < names.len() && !str_eq(names[k].as_str(), x.as_str())
            invariant
                k <= names@.len(),
                forall|j: int| 0 <= j < k ==> names@[j]@ != x@,
            decreases names.len() - k,
        {
            k = k + 1;
        }
        proof {
            assert(strs(names@) == distinct(pre));
        }
        if k < names.len() {
            assert(strs(names@)[k as int] == x@);
            assert(distinct(pre).contains(x@));
            let c = counts[k];
            counts.set(k, c + 1);
            proof {
                assert forall|j: int| 0 <= j < counts@.len() implies counts@[j] == count_of(
                    next,
                    #[trigger] names@[j]@,
                ) by {
                    if j != k {
                        assert(strs(names@)[j] == names@[j]@);
                        assert(names@[j]@ != x@) by {
                            lemma_distinct_no_dup(pre);
                        }
                    }
                }
            }
        } else {
            assert(!strs(names@).contains(x@)) by {
                if strs(names@).contains(x@) {
                    let j = choose|j: int| 0 <= j < strs(names@).len() && strs(names@)[j] == x@;
                    assert(names@[j]@ == x@);
                }
            }
            proof {
                lemma_distinct_contains(pre, x@);
                lemma_count_absent(pre, x@);
            }
            names.push(x.clone());
            counts.push(1);
            proof {
                assert(strs(names@) =~= distinct(pre).push(x@));
                assert forall|j: int| 0 <= j < counts@.len() implies counts@[j] == count_of(
                    next,
                    #[trigger] names@[j]@,
                ) by {
                    if j < counts@.len() - 1 {
                        assert(strs(names@)[j] == names@[j]@);
                        assert(strs(names@)[j] == distinct(pre)[j]);
                    }
                }
            }
        }
        i = i + 1;
    }
    assert(strs(occurrences@).take(occurrences@.len() as int) =~= strs(occurrences@));
    (names, counts)
}

/// The distinct texts have no repetition.
pub proof fn lemma_distinct_no_dup(s: Seq<Seq<char>>)
    ensures
        forall|a: int, b: int|
            0 <= a < distinct(s).len() && 0 <= b < distinct(s).len() && a != b ==> distinct(s)[a]
                != distinct(s)[b],
    decreases s.len(),
{
    if s.len() > 0 {
        lemma_distinct_no_dup(s.drop_last());
        let d = distinct(s.drop_last());
        if !d.contains(s.last()) {
            assert forall|a: int, b: int|
                0 <= a < distinct(s).len() && 0 <= b < distinct(s).len() && a != b implies distinct(
                s,
            )[a] != distinct(s)[b] by {
                if a == d.len() {
                    assert(distinct(s)[b] == d[b]);
                } else if b == d.len() {
                    assert(distinct(s)[a] == d[a]);
                }
            }
        }
    }
}

/// The distinct texts are no more than the texts.
pub proof fn lemma_distinct_len(s: Seq<Seq<char>>)
    ensures
        distinct(s).len() <= s.len(),
    decreases s.len(),
{
    if s.len() > 0 {
        lemma_distinct_len(s.drop_last());
    }
}

// ---------------------------------------------------------------------------
// The library
// ---------------------------------------------------------------------------

/// Every author name of the books, book after book, as listed.
pub open spec fn author_occurrences(books: Seq<ScannedBook>) -> Seq<Seq<char>>
    decreases books.len(),
{
    if books.len() == 0 {
        seq![]
    } else {
        author_occurrences(books.drop_last()) + strs(books.last().authors@)
    }
}

/// Every tag of the books, book after book, as listed.
pub open spec fn tag_occurrences(books: Seq<ScannedBook>) -> Seq<Seq<char>>
    decreases books.len(),
{
    if books.len() == 0 {
        seq![]
    } else {
        tag_occurrences(books.drop_last()) + strs(books.last().tags@)
    }
}

/// The series of the books that list `name` among their authors, one per
/// such book that belongs to a series.
pub open spec fn series_of_author(books: Seq<ScannedBook>, name: Seq<char>) -> Seq<Seq<char>>
    decreases books.len(),
{
    if books.len() == 0 {
        seq![]
    } else {
        series_of_author(books.drop_last(), name) + match ostr(books.last().series_name) {
            Some(sn) => if strs(books.last().authors@).contains(name) {
                seq![sn]
            } else {
                seq![]
            },
            None => seq![],
        }
    }
}

/// The library's authors, in order of first appearance; the `k`-th has id
/// `k + 1`.
pub open spec fn author_names(books: Seq<ScannedBook>) -> Seq<Seq<char>> {
    distinct(author_occurrences(books))
}

/// `a` is the `k`-th author of the library: named as listed, with the sort
/// name of that name, one book per listing of the name, and as many series as
/// the distinct series of their books.
pub open spec fn is_author_record(a: Author, books: Seq<ScannedBook>, k: int) -> bool {
    let name = author_names(books)[k];
    &&& a.id == k + 1
    &&& a.name@ == name
    &&& a.sort_name@ == sort_name_of(name)
    &&& a.book_count == count_of(author_occurrences(books), name)
    &&& a.series_count == distinct(series_of_author(books, name)).len()
}

/// The sort names of the library's authors, in order of first appearance.
pub open spec fn author_sort_names(books: Seq<ScannedBook>) -> Seq<Seq<char>> {
    author_names(books).map_values(|n: Seq<char>| sort_name_of(n))
}

/// Text keys with these views, in order.
pub open spec fn text_keys_are(keys: Seq<SortKey>, texts: Seq<Seq<char>>) -> bool {
    &&& keys.len() == texts.len()
    &&& forall|i: int| 0 <= i < keys.len() ==> (#[trigger] keys[i] matches SortKey::Text(t) && t@ == texts[i])
}

/// `e` is the `k`-th distinct series of `series` (the author's books' series,
/// one per book): numbered from 1 in order of first appearance, sorted by its
/// own name, with how many of the books belong to it.
pub open spec fn is_series_record(e: Series, series: Seq<Seq<char>>, k: int) -> bool {
    let name = distinct(series)[k];
    &&& e.id == k + 1
    &&& e.name@ == name
    &&& e.sort_name@ == name
    &&& e.book_count == count_of(series, name)
}

/// The genres' names in lowercase, in order of first appearance.
pub open spec fn genre_keys(books: Seq<ScannedBook>) -> Seq<Seq<char>> {
    distinct(tag_occurrences(books)).map_values(|n: Seq<char>| lowercase(n))
}

/// `out` holds, in increasing order, exactly the positions below `n` where
/// `pred` holds.
pub open spec fn picks(out: Seq<usize>, n: int, pred: spec_fn(int) -> bool) -> bool {
    &&& forall|p: int, q: int| 0 <= p < q < out.len() ==> out[p] < out[q]
    &&& forall|p: int| 0 <= p < out.len() ==> 0 <= #[trigger] out[p] < n && pred(out[p] as int)
    &&& forall|i: int| 0 <= i < n && #[trigger] pred(i) ==> out.contains(i as usize)
}

/// Extending a selection by position `i`.
pub(crate) proof fn lemma_picks_step(before: Seq<usize>, after: Seq<usize>, i: int, pred: spec_fn(int) -> bool, keep: bool)
    requires
        0 <= i <= usize::MAX,
        picks(before, i, pred),
        keep == pred(i),
        keep ==> after == before.push(i as usize),
        !keep ==> after == before,
    ensures
        picks(after, i + 1, pred),
{
    if keep {
        assert forall|j: int| 0 <= j < i + 1 && #[trigger] pred(j) implies after.contains(j as usize) by {
            if j < i {
                let p = choose|p: int| 0 <= p < before.len() && before[p] == j as usize;
                assert(after[p] == j as usize);
            } else {
                assert(after[before.len() as int] == i as usize);
            }
        }
    } else {
        assert forall|j: int| 0 <= j < i + 1 && #[trigger] pred(j) implies after.contains(j as usize) by {
            assert(j < i);
        }
    }
}

/// Whether a book has a tag equal to `genre` ignoring case.
pub open spec fn has_genre(b: ScannedBook, genre: Seq<char>) -> bool {
    exists|u: int| 0 <= u < b.tags@.len() && lowercase(#[trigger] b.tags@[u]@) == lowercase(genre)
}

/// Whether a book lists `author` and belongs to no series.
pub open spec fn is_standalone_of(b: ScannedBook, author: Seq<char>) -> bool {
    b.series_name is None && strs(b.authors@).contains(author)
}

/// A library whose files were scanned.
pub struct FolderSource {
    pub library_path: String,
    pub books: Vec<ScannedBook>,
}

/// Texts as text keys, in order.
fn text_keys(texts: &Vec<Vec<char>>) -> (keys: Vec<SortKey>)
    ensures
        text_keys_are(keys@, crate::text::views(texts@)),
{
    let mut keys: Vec<SortKey> = Vec::new();
    let mut i: usize = 0;
    while i < texts.len()
        invariant
            i <= texts.len(),
            keys@.len() == i,
            forall|j: int| 0 <= j < i ==> (#[trigger] keys@[j] matches SortKey::Text(t) && t@ == texts@[j]@),
        decreases texts.len() - i,
    {
        let t = crate::text::slice_chars(&texts[i], 0, texts[i].len());
        assert(t@ =~= texts@[i as int]@);
        keys.push(SortKey::Text(t));
        i = i + 1;
    }
    keys
}

/// Whether `name` is listed exactly.
fn lists(names: &Vec<String>, name: &str) -> (r: bool)
    ensures
        r == strs(names@).contains(name@),
{
    let mut i: usize = 0;
    while i < names.len()
        invariant
            i <= names.len(),
            forall|j: int| 0 <= j < i ==> names@[j]@ != name@,
        decreases names.len() - i,
    {
        if str_eq(names[i].as_str(), name) {
            assert(strs(names@)[i as int] == name@);
            return true;
        }
        i = i + 1;
    }
    assert(!strs(names@).contains(name@)) by {
        if strs(names@).contains(name@) {
            let j = choose|j: int| 0 <= j < strs(names@).len() && strs(names@)[j] == name@;
            assert(names@[j]@ == name@);
        }
    }
    false
}

impl FolderSource {
    /// Every author name of the books, as listed.
    fn author_list(&self) -> (occ: Vec<String>)
        ensures
            strs(occ@) == author_occurrences(self.books@),
    {
        let mut occ: Vec<String> = Vec::new();
        let mut i: usize = 0;
        assert(strs(occ@) =~= author_occurrences(self.books@.take(0)));
        while i < self.books.len()
            invariant
                i <= self.books.len(),
                strs(occ@) == author_occurrences(self.books@.take(i as int)),
            decreases self.books.len() - i,
        {
            let ghost before = strs(occ@);
            let authors = &self.books[i].authors;
            let mut j: usize = 0;
            while j < authors.len()
                invariant
                    j <= authors.len(),
                    authors == self.books@[i as int].authors,
                    strs(occ@) == before + strs(authors@).take(j as int),
                decreases authors.len() - j,
            {
                let ghost prev = occ@;
                let c = authors[j].clone();
                occ.push(c);
                assert(strs(occ@) =~= strs(prev).push(authors@[j as int]@));
                assert(strs(authors@).take(j + 1) =~= strs(authors@).take(j as int).push(authors@[j as int]@));
                assert(strs(occ@) =~= before + strs(authors@).take(j + 1));
                j = j + 1;
            }
            assert(self.books@.take(i + 1).drop_last() =~= self.books@.take(i as int));
            assert(strs(authors@).take(authors.len() as int) =~= strs(authors@));
            i = i + 1;
        }
        assert(self.books@.take(self.books.len() as int) =~= self.books@);
        occ
    }

    /// The series names of the books listing `name`, one per such book in a series.
    fn series_list(&self, name: &str) -> (out: Vec<String>)
        ensures
            strs(out@) == series_of_author(self.books@, name@),
    {
        let mut out: Vec<String> = Vec::new();
        let mut i: usize = 0;
        assert(strs(out@) =~= series_of_author(self.books@.take(0), name@));
        while i < self.books.len()
            invariant
                i <= self.books.len(),
                strs(out@) == series_of_author(self.books@.take(i as int), name@),
            decreases self.books.len() - i,
        {
            let b = &self.books[i];
            assert(self.books@.take(i + 1).drop_last() =~= self.books@.take(i as int));
            assert(self.books@.take(i + 1).last() == *b);
            match &b.series_name {
                Some(sn) => {
                    if lists(&b.authors, name) {
                        out.push(sn.clone());
                        assert(strs(out@) =~= series_of_author(self.books@.take(i + 1), name@));
                    } else {
                        assert(strs(out@) =~= series_of_author(self.books@.take(i + 1), name@));
                    }
                },
                None => {
                    assert(strs(out@) =~= series_of_author(self.books@.take(i + 1), name@));
                },
            }
            i = i + 1;
        }
        assert(self.books@.take(self.books.len() as int) =~= self.books@);
        out
    }

    /// The library's authors, by sort name (in order of first appearance
    /// among equal sort names).
    pub fn authors(&self) -> (out: Vec<Author>)
        requires
            author_occurrences(self.books@).len() < i64::MAX,
            self.books@.len() < i64::MAX,
        ensures
            out@.len() == author_names(self.books@).len(),
            exists|keys: Seq<SortKey>|
                #[trigger] text_keys_are(keys, author_sort_names(self.books@)) && forall|p: int|
                    0 <= p < out@.len() ==> is_author_record(
                        #[trigger] out@[p],
                        self.books@,
                        listing_order(keys, false)[p] as int,
                    ),
    {
        let occ = self.author_list();
        let (names, counts) = distinct_counts(&occ);
        let ghost books = self.books@;
        proof {
            lemma_distinct_len(author_occurrences(books));
        }
        let mut sort_names: Vec<Vec<char>> = Vec::new();
        let mut series_counts: Vec<i64> = Vec::new();
        let mut k: usize = 0;
        while k < names.len()
            invariant
                k <= names.len(),
                books == self.books@,
                self.books@.len() < i64::MAX,
                strs(names@) == author_names(books),
                sort_names@.len() == k,
                series_counts@.len() == k,
                forall|j: int| 0 <= j < k ==> (#[trigger] sort_names@[j])@ == sort_name_of(names@[j]@),
                forall|j: int| 0 <= j < k ==> #[trigger] series_counts@[j] == distinct(series_of_author(books, names@[j]@)).len(),
            decreases names.len() - k,
        {
            let sn = sort_name(names[k].as_str());
            sort_names.push(chars_of(sn.as_str()));
            let series = self.series_list(names[k].as_str());
            proof {
                lemma_series_len(books, names@[k as int]@);
            }
            let (distinct_series, _) = distinct_counts(&series);
            assert(distinct_series@.len() == strs(distinct_series@).len());
            proof {
                lemma_distinct_len(series_of_author(books, names@[k as int]@));
            }
            series_counts.push(distinct_series.len() as i64);
            k = k + 1;
        }
        let keys = text_keys(&sort_names);
        proof {
            assert(crate::text::views(sort_names@) =~= author_sort_names(books));
            crate::books::lemma_stable_order(keys@, keys@.len());
        }
        let order = order_by_keys(&keys, false);
        let mut out: Vec<Author> = Vec::new();
        let mut p: usize = 0;
        while p < order.len()
            invariant
                p <= order.len(),
                books == self.books@,
                order@ == listing_order(keys@, false),
                order@.len() == names@.len(),
                forall|q: int| 0 <= q < order@.len() ==> (#[trigger] order@[q]) < names@.len(),
                strs(names@) == author_names(books),
                names@.len() < i64::MAX,
                counted(author_occurrences(books), names@, counts@),
                series_counts@.len() == names@.len(),
                forall|j: int| 0 <= j < names@.len() ==> #[trigger] series_counts@[j] == distinct(series_of_author(books, names@[j]@)).len(),
                out@.len() == p,
                forall|q: int| 0 <= q < p ==> is_author_record(#[trigger] out@[q], books, order@[q] as int),
            decreases order.len() - p,
        {
            let k = order[p];
            assert(strs(names@)[k as int] == names@[k as int]@);
            let a = Author {
                id: (k as i64) + 1,
                name: names[k].clone(),
                sort_name: sort_name(names[k].as_str()),
                book_count: counts[k],
                series_count: series_counts[k],
            };
            out.push(a);
            proof {
                assert forall|q: int| 0 <= q < p + 1 implies is_author_record(#[trigger] out@[q], books, order@[q] as int) by {
                    if q < p {
                    } else {
                        assert(out@[q] == a);
                    }
                }
            }
            p = p + 1;
        }
        out
    }

    /// The series of the author with id `author_id` (as [`FolderSource::authors`]
    /// numbers them), by name: each numbered in order of first appearance
    /// among the author's books, with how many of those books it holds. None
    /// for an unknown id.
    pub fn series_by_author(&self, author_id: i64) -> (out: Vec<Series>)
        requires
            author_occurrences(self.books@).len() < i64::MAX,
            self.books@.len() < i64::MAX,
        ensures
            !(1 <= author_id <= author_names(self.books@).len()) ==> out@.len() == 0,
            1 <= author_id <= author_names(self.books@).len() ==> ({
                let series = series_of_author(self.books@, author_names(self.books@)[author_id - 1]);
                &&& out@.len() == distinct(series).len()
                &&& exists|keys: Seq<SortKey>|
                    #[trigger] text_keys_are(keys, distinct(series)) && forall|p: int|
                        0 <= p < out@.len() ==> is_series_record(
                            #[trigger] out@[p],
                            series,
                            listing_order(keys, false)[p] as int,
                        )
            }),
    {
        let occ = self.author_list();
        let (names, _) = distinct_counts(&occ);
        let ghost books = self.books@;
        if author_id < 1 || author_id as u64 > names.len() as u64 {
            return Vec::new();
        }
        let name_index = (author_id - 1) as usize;
        assert(strs(names@)[name_index as int] == names@[name_index as int]@);
        let series = self.series_list(names[name_index].as_str());
        proof {
            lemma_series_len(books, names@[name_index as int]@);
            lemma_distinct_len(series_of_author(books, names@[name_index as int]@));
        }
        let (series_names, series_counts) = distinct_counts(&series);
        let mut texts: Vec<Vec<char>> = Vec::new();
        let mut k: usize = 0;
        while k < series_names.len()
            invariant
                k <= series_names.len(),
                texts@.len() == k,
                forall|j: int| 0 <= j < k ==> (#[trigger] texts@[j])@ == series_names@[j]@,
            decreases series_names.len() - k,
        {
            texts.push(chars_of(series_names[k].as_str()));
            k = k + 1;
        }
        let keys = text_keys(&texts);
        proof {
            assert(crate::text::views(texts@) =~= strs(series_names@));
            crate::books::lemma_stable_order(keys@, keys@.len());
        }
        let order = order_by_keys(&keys, false);
        let ghost sseq = strs(series@);
        let mut out: Vec<Series> = Vec::new();
        let mut p: usize = 0;
        while p < order.len()
            invariant
                p <= order.len(),
                order@ == listing_order(keys@, false),
                order@.len() == series_names@.len(),
                forall|q: int| 0 <= q < order@.len() ==> (#[trigger] order@[q]) < series_names@.len(),
                series_names@.len() <= books.len(),
                books.len() < i64::MAX,
                counted(sseq, series_names@, series_counts@),
                out@.len() == p,
                forall|q: int| 0 <= q < p ==> is_series_record(#[trigger] out@[q], sseq, order@[q] as int),
            decreases order.len() - p,
        {
            let k = order[p];
            assert(strs(series_names@)[k as int] == series_names@[k as int]@);
            let entry = Series {
                id: (k as i64) + 1,
                name: series_names[k].clone(),
                sort_name: series_names[k].clone(),
                book_count: series_counts[k],
            };
            out.push(entry);
            proof {
                assert forall|q: int| 0 <= q < p + 1 implies is_series_record(#[trigger] out@[q], sseq, order@[q] as int) by {
                    if q == p {
                        assert(out@[q] == entry);
                    }
                }
            }
            p = p + 1;
        }
        out
    }

    /// The library's genres (tags) with how many listings each has, by name
    /// ignoring case (in order of first appearance among equal names).
    pub fn genres(&self) -> (out: Vec<(String, i64)>)
        requires
            tag_occurrences(self.books@).len() < i64::MAX,
        ensures
            out@.len() == distinct(tag_occurrences(self.books@)).len(),
            exists|keys: Seq<SortKey>|
                #[trigger] text_keys_are(keys, genre_keys(self.books@)) && forall|p: int|
                    0 <= p < out@.len() ==> ({
                        let k = listing_order(keys, false)[p] as int;
                        let name = distinct(tag_occurrences(self.books@))[k];
                        (#[trigger] out@[p]).0@ == name && out@[p].1 == count_of(tag_occurrences(self.books@), name)
                    }),
    {
        let tags = self.tag_list();
        let (names, counts) = distinct_counts(&tags);
        let ghost occ = tag_occurrences(self.books@);
        proof {
            lemma_distinct_len(occ);
        }
        let mut texts: Vec<Vec<char>> = Vec::new();
        let mut k: usize = 0;
        while k < names.len()
            invariant
                k <= names.len(),
                texts@.len() == k,
                forall|j: int| 0 <= j < k ==> (#[trigger] texts@[j])@ == lowercase(names@[j]@),
            decreases names.len() - k,
        {
            let l = to_lowercase(names[k].as_str());
            texts.push(chars_of(l.as_str()));
            k = k + 1;
        }
        let keys = text_keys(&texts);
        proof {
            assert(crate::text::views(texts@) =~= genre_keys(self.books@));
            crate::books::lemma_stable_order(keys@, keys@.len());
        }
        let order = order_by_keys(&keys, false);
        let mut out: Vec<(String, i64)> = Vec::new();
        let mut p: usize = 0;
        while p < order.len()
            invariant
                p <= order.len(),
                order@ == listing_order(keys@, false),
                order@.len() == names@.len(),
                forall|q: int| 0 <= q < order@.len() ==> (#[trigger] order@[q]) < names@.len(),
                counted(occ, names@, counts@),
                out@.len() == p,
                forall|q: int| 0 <= q < p ==> ({
                    let k = order@[q] as int;
                    (#[trigger] out@[q]).0@ == distinct(occ)[k] && out@[q].1 == count_of(occ, distinct(occ)[k])
                }),
            decreases order.len() - p,
        {
            let k = order[p];
            assert(strs(names@)[k as int] == names@[k as int]@);
            let entry = (names[k].clone(), counts[k]);
            out.push(entry);
            proof {
                assert forall|q: int| 0 <= q < p + 1 implies ({
                    let k = order@[q] as int;
                    (#[trigger] out@[q]).0@ == distinct(occ)[k] && out@[q].1 == count_of(occ, distinct(occ)[k])
                }) by {
                    if q == p {
                        assert(out@[q] == entry);
                    }
                }
            }
            p = p + 1;
        }
        out
    }

    /// Every tag of the books, as listed.
    fn tag_list(&self) -> (occ: Vec<String>)
        ensures
            strs(occ@) == tag_occurrences(self.books@),
    {
        let mut occ: Vec<String> = Vec::new();
        let mut i: usize = 0;
        assert(strs(occ@) =~= tag_occurrences(self.books@.take(0)));
        while i < self.books.len()
            invariant
                i <= self.books.len(),
                strs(occ@) == tag_occurrences(self.books@.take(i as int)),
            decreases self.books.len() - i,
        {
            let ghost before = strs(occ@);
            let tags = &self.books[i].tags;
            let mut j: usize = 0;
            while j < tags.len()
                invariant
                    j <= tags.len(),
                    tags == self.books@[i as int].tags,
                    strs(occ@) == before + strs(tags@).take(j as int),
                decreases tags.len() - j,
            {
                let ghost prev = occ@;
                let c = tags[j].clone();
                occ.push(c);
                assert(strs(occ@) =~= strs(prev).push(tags@[j as int]@));
                assert(strs(tags@).take(j + 1) =~= strs(tags@).take(j as int).push(tags@[j as int]@));
                assert(strs(occ@) =~= before + strs(tags@).take(j + 1));
                j = j + 1;
            }
            assert(self.books@.take(i + 1).drop_last() =~= self.books@.take(i as int));
            assert(strs(tags@).take(tags.len() as int) =~= strs(tags@));
            i = i + 1;
        }
        assert(self.books@.take(self.books.len() as int) =~= self.books@);
        occ
    }


    /// The positions of the books with a tag equal to `genre_name` ignoring
    /// case, in scan order.
    pub fn books_by_genre(&self, genre_name: &str) -> (out: Vec<usize>)
        ensures
            picks(out@, self.books@.len() as int, |i: int| has_genre(self.books@[i], genre_name@)),
    {
        let wanted = to_lowercase(genre_name);
        let mut out: Vec<usize> = Vec::new();
        let mut i: usize = 0;
        while i < self.books.len()
            invariant
                i <= self.books.len(),
                wanted@ == lowercase(genre_name@),
                picks(out@, i as int, |j: int| has_genre(self.books@[j], genre_name@)),
            decreases self.books.len() - i,
        {
            let tags = &self.books[i].tags;
            let mut t: usize = 0;
            let mut found = false;
            while t < tags.len()
                invariant
                    t <= tags.len(),
                    tags == self.books@[i as int].tags,
                    wanted@ == lowercase(genre_name@),
                    found == exists|u: int| 0 <= u < t && lowercase(#[trigger] tags@[u]@) == lowercase(genre_name@),
                decreases tags.len() - t,
            {
                let l = to_lowercase(tags[t].as_str());
                if str_eq(l.as_str(), wanted.as_str()) {
                    found = true;
                }
                t = t + 1;
            }
            let ghost before = out@;
            if found {
                out.push(i);
            }
            proof {
                lemma_picks_step(before, out@, i as int, |j: int| has_genre(self.books@[j], genre_name@), found);
            }
            i = i + 1;
        }
        out
    }

    /// The positions of the books that list `author_name` and belong to no
    /// series, in scan order.
    pub fn standalone_books(&self, author_name: &str) -> (out: Vec<usize>)
        ensures
            picks(out@, self.books@.len() as int, |i: int| is_standalone_of(self.books@[i], author_name@)),
    {
        let mut out: Vec<usize> = Vec::new();
        let mut i: usize = 0;
        while i < self.books.len()
            invariant
                i <= self.books.len(),
                picks(out@, i as int, |j: int| is_standalone_of(self.books@[j], author_name@)),
            decreases self.books.len() - i,
        {
            let b = &self.books[i];
            let keep = b.series_name.is_none() && lists(&b.authors, author_name);
            let ghost before = out@;
            if keep {
                out.push(i);
            }
            proof {
                lemma_picks_step(before, out@, i as int, |j: int| is_standalone_of(self.books@[j], author_name@), keep);
            }
            i = i + 1;
        }
        out
    }

    /// The positions of the books of the series `series_name`, in scan order
    /// (the caller orders them by their series position).
    pub fn books_in_series(&self, series_name: &str) -> (out: Vec<usize>)
        ensures
            picks(out@, self.books@.len() as int, |i: int| ostr(self.books@[i].series_name) == Some(series_name@)),
    {
        let mut out: Vec<usize> = Vec::new();
        let mut i: usize = 0;
        while i < self.books.len()
            invariant
                i <= self.books.len(),
                picks(out@, i as int, |j: int| ostr(self.books@[j].series_name) == Some(series_name@)),
            decreases self.books.len() - i,
        {
            let keep = match &self.books[i].series_name {
                Some(sn) => str_eq(sn.as_str(), series_name),
                None => false,
            };
            let ghost before = out@;
            if keep {
                out.push(i);
            }
            proof {
                lemma_picks_step(before, out@, i as int, |j: int| ostr(self.books@[j].series_name) == Some(series_name@), keep);
            }
            i = i + 1;
        }
        out
    }

    /// The position of the book with id `book_id` (books are numbered by
    /// position); none for a negative or too large id.
    pub fn book(&self, book_id: i64) -> (r: Option<usize>)
        ensures
            r matches Some(i) ==> i == book_id && i < self.books@.len(),
            r is None <==> !(0 <= book_id < self.books@.len()),
    {
        if book_id < 0 || book_id as u64 >= self.books.len() as u64 {
            None
        } else {
            Some(book_id as usize)
        }
    }

    /// The cover of a folder book: none as a separate file (it is embedded in
    /// the EPUB).
    pub fn cover_path(&self, book_path: &str) -> (r: Option<String>)
        ensures
            r is None,
    {
        None
    }

}

/// One series entry per book at most.
proof fn lemma_series_len(books: Seq<ScannedBook>, name: Seq<char>)
    ensures
        series_of_author(books, name).len() <= books.len(),
    decreases books.len(),
{
    if books.len() > 0 {
        lemma_series_len(books.drop_last(), name);
    }
}

} // verus!
