//! Torznab / Newznab / RSS responses: turning the XML events of a feed into
//! search results.
//!
//! Each `<item>` of the feed becomes a result when it has a title and a
//! download link. Inside an item, `<title>`, `<link>`, `<pubDate>` and
//! `<category>` give text fields, `<enclosure url=".." length=".."/>` gives
//! the link and the size when they are still missing, and
//! `<torznab:attr name=".." value=".."/>` (or any `..:attr`) gives seeders,
//! leechers (or peers), size, magnet link and info hash.

use vstd::prelude::*;
use quick_xml::events::Event::{Empty, End, Eof, Start, Text};
use crate::acquisition::{guess_author_from_title, guess_author_of, AcquisitionError, SearchResult};
use crate::text::{
    chars_of, ends_with, ends_with_str, extend_str, lowercase, ostr, parse_i64, parse_in_range,
    str_eq, string_from_str, string_of,
};

verus! {

/// One event of an XML document, with names and texts as strings.
pub enum XmlEvent {
    /// An opening tag, by name.
    Start(String),
    /// A self-closing tag, by name, with its attributes (key, value).
    Empty(String, Vec<(String, String)>),
    /// Character data, unescaped.
    Text(String),
    /// A closing tag, by name.
    End(String),
    /// The end of the document.
    Eof,
    /// Anything else (comments, declarations, CDATA, ...).
    Other,
}

/// The state of the feed reader between events.
pub struct ItemState {
    pub inside_item: bool,
    pub title: String,
    pub link: String,
    pub published_at: Option<String>,
    pub category: Option<String>,
    pub seeders: Option<i32>,
    pub leechers: Option<i32>,
    pub size_bytes: Option<i64>,
    pub magnet_url: Option<String>,
    pub info_hash: Option<String>,
    pub tag: String,
    pub text: String,
}

/// The mathematical content of an [`ItemState`].
pub struct ItemView {
    pub inside_item: bool,
    pub title: Seq<char>,
    pub link: Seq<char>,
    pub published_at: Option<Seq<char>>,
    pub category: Option<Seq<char>>,
    pub seeders: Option<i32>,
    pub leechers: Option<i32>,
    pub size_bytes: Option<i64>,
    pub magnet_url: Option<Seq<char>>,
    pub info_hash: Option<Seq<char>>,
    pub tag: Seq<char>,
    pub text: Seq<char>,
}

impl View for ItemState {
    type V = ItemView;

    open spec fn view(&self) -> ItemView {
        ItemView {
            inside_item: self.inside_item,
            title: self.title@,
            link: self.link@,
            published_at: ostr(self.published_at),
            category: ostr(self.category),
            seeders: self.seeders,
            leechers: self.leechers,
            size_bytes: self.size_bytes,
            magnet_url: ostr(self.magnet_url),
            info_hash: ostr(self.info_hash),
            tag: self.tag@,
            text: self.text@,
        }
    }
}

/// The state before the first event: outside any item, everything empty.
pub open spec fn initial_item() -> ItemView {
    ItemView {
        inside_item: false,
        title: seq![],
        link: seq![],
        published_at: None,
        category: None,
        seeders: None,
        leechers: None,
        size_bytes: None,
        magnet_url: None,
        info_hash: None,
        tag: seq![],
        text: seq![],
    }
}

/// An `i32` read from an attribute value, when it parses.
pub open spec fn parse_i32_of(v: Seq<char>) -> Option<i32> {
    match parse_in_range(v, true, i32::MIN as int, i32::MAX as int) {
        Some(x) => Some(x as i32),
        None => None,
    }
}

/// An `i64` read from an attribute value, when it parses.
pub open spec fn parse_i64_of(v: Seq<char>) -> Option<i64> {
    match parse_in_range(v, true, i64::MIN as int, i64::MAX as int) {
        Some(x) => Some(x as i64),
        None => None,
    }
}

/// The enclosure's attributes, the first `n` of them, applied in order: `url`
/// sets the link while it is empty, `length` sets the size while it is
/// missing.
pub open spec fn apply_enclosure(st: ItemView, attrs: Seq<(String, String)>, n: nat) -> ItemView
    decreases n,
{
    if n == 0 || n > attrs.len() {
        st
    } else {
        let s = apply_enclosure(st, attrs, (n - 1) as nat);
        let key = attrs[n - 1].0@;
        let value = attrs[n - 1].1@;
        if key == "url"@ && s.link.len() == 0 {
            ItemView { link: value, ..s }
        } else if key == "length"@ && s.size_bytes is None {
            ItemView { size_bytes: parse_i64_of(value), ..s }
        } else {
            s
        }
    }
}

/// The value of the last of the first `n` attributes with key `key`, or the
/// empty text.
pub open spec fn last_attr(attrs: Seq<(String, String)>, key: Seq<char>, n: nat) -> Seq<char>
    decreases n,
{
    if n == 0 || n > attrs.len() {
        seq![]
    } else if attrs[n - 1].0@ == key {
        attrs[n - 1].1@
    } else {
        last_attr(attrs, key, (n - 1) as nat)
    }
}

/// A `name`/`value` attribute element applied to the item.
pub open spec fn apply_named_attr(st: ItemView, attrs: Seq<(String, String)>) -> ItemView {
    let name = last_attr(attrs, "name"@, attrs.len());
    let value = last_attr(attrs, "value"@, attrs.len());
    if name == "seeders"@ {
        ItemView { seeders: parse_i32_of(value), ..st }
    } else if name == "leechers"@ || name == "peers"@ {
        ItemView { leechers: parse_i32_of(value), ..st }
    } else if name == "size"@ {
        ItemView { size_bytes: parse_i64_of(value), ..st }
    } else if name == "magneturl"@ {
        ItemView { magnet_url: Some(value), ..st }
    } else if name == "infohash"@ {
        ItemView { info_hash: Some(value), ..st }
    } else {
        st
    }
}

/// Whether a self-closing tag carries a `name`/`value` attribute.
pub open spec fn is_attr_tag(name: Seq<char>) -> bool {
    ends_with(name, ":attr"@) || name == "torznab:attr"@ || name == "newznab:attr"@
}

/// One event applied to the reader's state; the second component is the item
/// completed by this event, if it completes one with a title and a link.
pub open spec fn step(st: ItemView, ev: XmlEvent) -> (ItemView, Option<ItemView>) {
    match ev {
        XmlEvent::Start(name) => {
            let s1 = if name@ == "item"@ {
                ItemView {
                    inside_item: true,
                    title: seq![],
                    link: seq![],
                    published_at: None,
                    category: None,
                    seeders: None,
                    leechers: None,
                    size_bytes: None,
                    magnet_url: None,
                    info_hash: None,
                    ..st
                }
            } else {
                st
            };
            if s1.inside_item {
                (ItemView { tag: name@, text: seq![], ..s1 }, None)
            } else {
                (s1, None)
            }
        },
        XmlEvent::Empty(name, attrs) => {
            if !st.inside_item {
                (st, None)
            } else {
                let s1 = if name@ == "enclosure"@ {
                    apply_enclosure(st, attrs@, attrs@.len())
                } else {
                    st
                };
                if is_attr_tag(name@) {
                    (apply_named_attr(s1, attrs@), None)
                } else {
                    (s1, None)
                }
            }
        },
        XmlEvent::Text(t) => {
            if st.inside_item {
                (ItemView { text: st.text + t@, ..st }, None)
            } else {
                (st, None)
            }
        },
        XmlEvent::End(name) => {
            if name@ == "item"@ && st.inside_item {
                (
                    ItemView { inside_item: false, ..st },
                    if st.title.len() > 0 && st.link.len() > 0 {
                        Some(st)
                    } else {
                        None
                    },
                )
            } else if st.inside_item {
                let s1 = if st.tag == "title"@ {
                    ItemView { title: st.text, ..st }
                } else if st.tag == "link"@ && st.link.len() == 0 {
                    ItemView { link: st.text, ..st }
                } else if st.tag == "pubDate"@ {
                    ItemView { published_at: Some(st.text), ..st }
                } else if st.tag == "category"@ {
                    ItemView { category: Some(st.text), ..st }
                } else {
                    st
                };
                (ItemView { text: seq![], ..s1 }, None)
            } else {
                (st, None)
            }
        },
        XmlEvent::Eof => (st, None),
        XmlEvent::Other => (st, None),
    }
}

/// The state after a sequence of events, and the items completed on the way.
pub open spec fn run(events: Seq<XmlEvent>) -> (ItemView, Seq<ItemView>)
    decreases events.len(),
{
    if events.len() == 0 {
        (initial_item(), seq![])
    } else {
        let (st, done) = run(events.drop_last());
        let (st2, item) = step(st, events.last());
        match item {
            Some(it) => (st2, done.push(it)),
            None => (st2, done),
        }
    }
}

/// Whether `r` is the search result made of the completed item `it` of the
/// indexer `indexer`.
pub open spec fn result_of_item(r: SearchResult, it: ItemView, indexer: Seq<char>) -> bool {
    &&& r.title@ == it.title
    &&& ostr(r.author_guess) == guess_author_of(it.title, lowercase(it.title))
    &&& r.size_bytes == it.size_bytes
    &&& r.download_url@ == it.link
    &&& ostr(r.magnet_url) == it.magnet_url
    &&& ostr(r.info_hash) == it.info_hash
    &&& r.seeders == it.seeders
    &&& r.leechers == it.leechers
    &&& ostr(r.category) == it.category
    &&& r.indexer_name@ == indexer
    &&& ostr(r.published_at) == it.published_at
}

/// Whether `results` are exactly the results of the items completed by
/// `events`, in order.
pub open spec fn results_of_events(
    results: Seq<SearchResult>,
    events: Seq<XmlEvent>,
    indexer: Seq<char>,
) -> bool {
    let done = run(events).1;
    &&& results.len() == done.len()
    &&& forall|i: int| 0 <= i < done.len() ==> result_of_item(results[i], done[i], indexer)
}

// ---------------------------------------------------------------------------
// Computing
// ---------------------------------------------------------------------------

/// Parse an `i32` attribute value.
fn parse_i32_exec(v: &str) -> (r: Option<i32>)
    ensures
        r == parse_i32_of(v@),
{
    let c = chars_of(v);
    match parse_i64(&c) {
        Some(x) => {
            if i32::MIN as i64 <= x && x <= i32::MAX as i64 {
                Some(x as i32)
            } else {
                None
            }
        },
        None => None,
    }
}

/// Parse an `i64` attribute value.
fn parse_i64_exec(v: &str) -> (r: Option<i64>)
    ensures
        r == parse_i64_of(v@),
{
    let c = chars_of(v);
    parse_i64(&c)
}

/// A copy of an optional string.
fn copy_opt(v: &Option<String>) -> (out: Option<String>)
    ensures
        ostr(out) == ostr(*v),
{
    match v {
        Some(s) => Some(s.clone()),
        None => None,
    }
}

/// The state before the first event.
pub fn new_item_state() -> (st: ItemState)
    ensures
        st@ == initial_item(),
{
    ItemState {
        inside_item: false,
        title: String::new(),
        link: String::new(),
        published_at: None,
        category: None,
        seeders: None,
        leechers: None,
        size_bytes: None,
        magnet_url: None,
        info_hash: None,
        tag: String::new(),
        text: String::new(),
    }
}

/// Apply an enclosure's attributes.
fn apply_enclosure_exec(st: &mut ItemState, attrs: &Vec<(String, String)>)
    ensures
        final(st)@ == apply_enclosure(old(st)@, attrs@, attrs@.len()),
{
    let ghost start = st@;
    let mut i: usize = 0;
    while i < attrs.len()
        invariant
            i <= attrs.len(),
            st@ == apply_enclosure(start, attrs@, i as nat),
        decreases attrs.len() - i,
    {
        let key = attrs[i].0.as_str();
        let value = &attrs[i].1;
        if str_eq(key, "url") && st.link.as_str().is_empty() {
            st.link = value.clone();
        } else if str_eq(key, "length") && st.size_bytes.is_none() {
            st.size_bytes = parse_i64_exec(value.as_str());
        }
        i = i + 1;
    }
}

/// The value of the last attribute with key `key`, or the empty text.
fn last_attr_exec(attrs: &Vec<(String, String)>, key: &str) -> (out: String)
    ensures
        out@ == last_attr(attrs@, key@, attrs@.len()),
{
    let mut found = String::new();
    let mut i: usize = 0;
    while i < attrs.len()
        invariant
            i <= attrs.len(),
            found@ == last_attr(attrs@, key@, i as nat),
        decreases attrs.len() - i,
    {
        if str_eq(attrs[i].0.as_str(), key) {
            found = attrs[i].1.clone();
        }
        i = i + 1;
    }
    found
}

/// What a `name`/`value` attribute element sets, by its name: `seeders`
/// the seeders, `leechers` or `peers` the leechers, `size` the size (each
/// the value read as a number, none when it is not one), `magneturl` the
/// magnet link and `infohash` the info hash; any other name changes nothing,
/// and each field changes only under its own names.
pub open spec fn attr_sets_by_name(before: ItemView, name: Seq<char>, value: Seq<char>, after: ItemView) -> bool {
    &&& after.seeders == (if name == "seeders"@ { parse_i32_of(value) } else { before.seeders })
    &&& after.leechers == (if name == "leechers"@ || name == "peers"@ {
        parse_i32_of(value)
    } else {
        before.leechers
    })
    &&& after.size_bytes == (if name == "size"@ { parse_i64_of(value) } else { before.size_bytes })
    &&& after.magnet_url == (if name == "magneturl"@ { Some(value) } else { before.magnet_url })
    &&& after.info_hash == (if name == "infohash"@ { Some(value) } else { before.info_hash })
    &&& after.inside_item == before.inside_item
    &&& after.title == before.title
    &&& after.link == before.link
    &&& after.published_at == before.published_at
    &&& after.category == before.category
    &&& after.tag == before.tag
    &&& after.text == before.text
}

/// An attribute element sets exactly the field its name names (see
/// [`attr_sets_by_name`]), with the element's last `name` and `value`.
pub proof fn lemma_named_attr_sets_its_field(st: ItemView, attrs: Seq<(String, String)>)
    ensures
        attr_sets_by_name(
            st,
            last_attr(attrs, "name"@, attrs.len()),
            last_attr(attrs, "value"@, attrs.len()),
            apply_named_attr(st, attrs),
        ),
{
    let name = last_attr(attrs, "name"@, attrs.len());
    reveal_strlit("seeders");
    reveal_strlit("leechers");
    reveal_strlit("peers");
    reveal_strlit("size");
    reveal_strlit("magneturl");
    reveal_strlit("infohash");
    assert("seeders"@ != "leechers"@ && "seeders"@ != "peers"@ && "seeders"@ != "size"@ && "seeders"@
        != "magneturl"@ && "seeders"@ != "infohash"@) by {
        assert("seeders"@[0] != "leechers"@[0]);
        assert("seeders"@[0] != "peers"@[0]);
        assert("seeders"@[1] != "size"@[1]);
        assert("seeders"@.len() != "magneturl"@.len());
        assert("seeders"@[0] != "infohash"@[0]);
    }
    assert("leechers"@ != "size"@ && "leechers"@ != "magneturl"@ && "leechers"@ != "infohash"@) by {
        assert("leechers"@[0] != "size"@[0]);
        assert("leechers"@[0] != "magneturl"@[0]);
        assert("leechers"@[0] != "infohash"@[0]);
    }
    assert("peers"@ != "size"@ && "peers"@ != "magneturl"@ && "peers"@ != "infohash"@) by {
        assert("peers"@[0] != "size"@[0]);
        assert("peers"@[0] != "magneturl"@[0]);
        assert("peers"@[0] != "infohash"@[0]);
    }
    assert("size"@ != "magneturl"@ && "size"@ != "infohash"@ && "magneturl"@ != "infohash"@) by {
        assert("size"@[0] != "magneturl"@[0]);
        assert("size"@[0] != "infohash"@[0]);
        assert("magneturl"@[0] != "infohash"@[0]);
    }
}

/// Apply a `name`/`value` attribute element.
fn apply_named_attr_exec(st: &mut ItemState, attrs: &Vec<(String, String)>)
    ensures
        final(st)@ == apply_named_attr(old(st)@, attrs@),
        attr_sets_by_name(
            old(st)@,
            last_attr(attrs@, "name"@, attrs@.len()),
            last_attr(attrs@, "value"@, attrs@.len()),
            final(st)@,
        ),
{
    proof {
        lemma_named_attr_sets_its_field(st@, attrs@);
    }
    let name = last_attr_exec(attrs, "name");
    let value = last_attr_exec(attrs, "value");
    let n = name.as_str();
    if str_eq(n, "seeders") {
        st.seeders = parse_i32_exec(value.as_str());
    } else if str_eq(n, "leechers") || str_eq(n, "peers") {
        st.leechers = parse_i32_exec(value.as_str());
    } else if str_eq(n, "size") {
        st.size_bytes = parse_i64_exec(value.as_str());
    } else if str_eq(n, "magneturl") {
        st.magnet_url = Some(value);
    } else if str_eq(n, "infohash") {
        st.info_hash = Some(value);
    }
}

/// The search result made of a completed item.
fn item_result(st: &ItemState, indexer_name: &str) -> (r: SearchResult)
    ensures
        result_of_item(r, st@, indexer_name@),
{
    SearchResult {
        title: st.title.clone(),
        author_guess: guess_author_from_title(st.title.as_str()),
        size_bytes: st.size_bytes,
        download_url: st.link.clone(),
        magnet_url: copy_opt(&st.magnet_url),
        info_hash: copy_opt(&st.info_hash),
        seeders: st.seeders,
        leechers: st.leechers,
        category: copy_opt(&st.category),
        indexer_name: string_from_str(indexer_name),
        published_at: copy_opt(&st.published_at),
    }
}

/// Apply one event; the result made of the item it completes, if any.
pub fn step_exec(st: &mut ItemState, ev: &XmlEvent, indexer_name: &str) -> (r: Option<
    SearchResult,
>)
    ensures
        final(st)@ == step(old(st)@, *ev).0,
        match step(old(st)@, *ev).1 {
            Some(it) => r matches Some(res) && result_of_item(res, it, indexer_name@),
            None => r is None,
        },
{
    match ev {
        XmlEvent::Start(name) => {
            if str_eq(name.as_str(), "item") {
                st.inside_item = true;
                st.title = String::new();
                st.link = String::new();
                st.published_at = None;
                st.category = None;
                st.seeders = None;
                st.leechers = None;
                st.size_bytes = None;
                st.magnet_url = None;
                st.info_hash = None;
            }
            if st.inside_item {
                st.tag = name.clone();
                st.text = String::new();
            }
            None
        },
        XmlEvent::Empty(name, attrs) => {
            if !st.inside_item {
                return None;
            }
            if str_eq(name.as_str(), "enclosure") {
                apply_enclosure_exec(st, attrs);
            }
            let nc = chars_of(name.as_str());
            if ends_with_str(&nc, ":attr") || str_eq(name.as_str(), "torznab:attr") || str_eq(
                name.as_str(),
                "newznab:attr",
            ) {
                apply_named_attr_exec(st, attrs);
            }
            None
        },
        XmlEvent::Text(t) => {
            if st.inside_item {
                let mut v = chars_of(st.text.as_str());
                extend_str(&mut v, t.as_str());
                st.text = string_of(&v);
            }
            None
        },
        XmlEvent::End(name) => {
            if str_eq(name.as_str(), "item") && st.inside_item {
                let r = if !st.title.as_str().is_empty() && !st.link.as_str().is_empty() {
                    Some(item_result(st, indexer_name))
                } else {
                    None
                };
                st.inside_item = false;
                r
            } else if st.inside_item {
                let tag = st.tag.as_str();
                if str_eq(tag, "title") {
                    st.title = st.text.clone();
                } else if str_eq(tag, "link") && st.link.as_str().is_empty() {
                    st.link = st.text.clone();
                } else if str_eq(tag, "pubDate") {
                    st.published_at = Some(st.text.clone());
                } else if str_eq(tag, "category") {
                    st.category = Some(st.text.clone());
                }
                st.text = String::new();
                None
            } else {
                None
            }
        },
        XmlEvent::Eof => None,
        XmlEvent::Other => None,
    }
}

/// The search results of a feed, given its XML events in document order.
pub fn parse_torznab_events(events: &Vec<XmlEvent>, indexer_name: &str) -> (out: Vec<SearchResult>)
    ensures
        results_of_events(out@, events@, indexer_name@),
{
    let mut st = new_item_state();
    let mut results: Vec<SearchResult> = Vec::new();
    let mut i: usize = 0;
    while i < events.len()
        invariant
            i <= events.len(),
            st@ == run(events@.take(i as int)).0,
            results_of_events(results@, events@.take(i as int), indexer_name@),
        decreases events.len() - i,
    {
        let ghost pre = events@.take(i as int);
        let ghost done = run(pre).1;
        assert(events@.take(i + 1).drop_last() =~= pre);
        assert(events@.take(i + 1).last() == events@[i as int]);
        let r = step_exec(&mut st, &events[i], indexer_name);
        match r {
            Some(res) => {
                let ghost before = results@;
                results.push(res);
                proof {
                    let done2 = run(events@.take(i + 1)).1;
                    assert forall|k: int| 0 <= k < done2.len() implies result_of_item(
                        results@[k],
                        done2[k],
                        indexer_name@,
                    ) by {
                        if k < done.len() {
                            assert(results@[k] == before[k]);
                        }
                    }
                }
            },
            None => {},
        }
        i = i + 1;
    }
    assert(events@.take(events.len() as int) =~= events@);
    results
}

// ---------------------------------------------------------------------------
// Reading the feed
// ---------------------------------------------------------------------------

#[verifier::external_type_specification]
#[verifier::external_body]
#[verifier::reject_recursive_types(R)]
pub struct ExXmlReader<R>(quick_xml::Reader<R>);

/// One event as the XML reader gives it: names and attributes as bytes.
pub enum RawXmlEvent {
    Start(Vec<u8>),
    Empty(Vec<u8>, Vec<(Vec<u8>, Vec<u8>)>),
    Text(String),
    End(Vec<u8>),
    Eof,
    Other,
    Error(String),
}

/// The content of a [`RawXmlEvent`].
pub enum RawEventView {
    Start(Seq<u8>),
    Empty(Seq<u8>, Seq<(Seq<u8>, Seq<u8>)>),
    Text(Seq<char>),
    End(Seq<u8>),
    Eof,
    Other,
    Error(Seq<char>),
}

/// The content of a raw event.
pub open spec fn raw_view(e: RawXmlEvent) -> RawEventView {
    match e {
        RawXmlEvent::Start(b) => RawEventView::Start(b@),
        RawXmlEvent::Empty(b, a) => RawEventView::Empty(
            b@,
            a@.map_values(|p: (Vec<u8>, Vec<u8>)| (p.0@, p.1@)),
        ),
        RawXmlEvent::Text(t) => RawEventView::Text(t@),
        RawXmlEvent::End(b) => RawEventView::End(b@),
        RawXmlEvent::Eof => RawEventView::Eof,
        RawXmlEvent::Other => RawEventView::Other,
        RawXmlEvent::Error(m) => RawEventView::Error(m@),
    }
}

/// The `k`-th event (from 0) that `quick_xml::Reader::read_event` gives for
/// the document `xml` read with `trim_text(true)`, as [`next_feed_event`]
/// converts it.
pub uninterp spec fn xml_event_at(xml: Seq<char>, k: nat) -> RawEventView;

/// A pull reader over a feed, with the document it reads and the number of
/// events read so far.
pub struct FeedReader<'a> {
    reader: quick_xml::Reader<&'a [u8]>,
    text: &'a str,
    count: u64,
}

/// `quick_xml::Reader::from_str` on `xml`, with `Config::trim_text(true)`
/// (white space around text dropped, white-space-only text yielding no
/// event): a reader at the start of the document.
#[verifier::external_body]
fn open_feed<'a>(xml: &'a str) -> (r: FeedReader<'a>)
    ensures
        r.text@ == xml@,
        r.count == 0,
{
    let mut reader = quick_xml::Reader::from_str(xml);
    reader.config_mut().trim_text(true);
    FeedReader { reader, text: xml, count: 0 }
}

/// `quick_xml::Reader::read_event`: the next event of the document, which
/// is the one at the number of events read so far. Names and attributes come
/// as raw bytes, text unescaped (empty where unescaping fails), attributes
/// that do not parse are skipped, and a parser error comes as its message.
#[verifier::external_body]
fn next_feed_event<'a>(r: &mut FeedReader<'a>) -> (e: RawXmlEvent)
    requires
        old(r).count < u64::MAX,
    ensures
        final(r).text == old(r).text,
        final(r).count == old(r).count + 1,
        raw_view(e) == xml_event_at(old(r).text@, old(r).count as nat),
{
    let e = match r.reader.read_event() {
        Ok(Start(e)) => RawXmlEvent::Start(e.name().0.to_vec()),
        Ok(Empty(e)) => RawXmlEvent::Empty(e.name().0.to_vec(),
            e.attributes().flatten().map(|a| (a.key.0.to_vec(), a.value.to_vec())).collect()),
        Ok(Text(e)) => RawXmlEvent::Text(e.unescape().unwrap_or_default().into_owned()),
        Ok(End(e)) => RawXmlEvent::End(e.name().0.to_vec()),
        Ok(Eof) => RawXmlEvent::Eof,
        Ok(_) => RawXmlEvent::Other,
        Err(err) => RawXmlEvent::Error(err.to_string()),
    };
    r.count += 1;
    e
}

/// What `String::from_utf8_lossy` makes of some bytes.
pub uninterp spec fn lossy_utf8(b: Seq<u8>) -> Seq<char>;

/// `String::from_utf8_lossy`: the bytes read as UTF-8, invalid sequences
/// replaced by U+FFFD. The contract names the result.
#[verifier::external_body]
fn utf8_lossy(b: &[u8]) -> (out: String)
    ensures
        out@ == lossy_utf8(b@),
{
    String::from_utf8_lossy(b).into_owned()
}

/// Whether `ev` is the raw event `raw` with its names and attributes read as
/// UTF-8 (lossily).
pub open spec fn decodes_to(raw: RawEventView, ev: XmlEvent) -> bool {
    match (raw, ev) {
        (RawEventView::Start(b), XmlEvent::Start(n)) => n@ == lossy_utf8(b),
        (RawEventView::Empty(b, ra), XmlEvent::Empty(n, a)) => {
            &&& n@ == lossy_utf8(b)
            &&& a@.len() == ra.len()
            &&& forall|i: int|
                0 <= i < a@.len() ==> (#[trigger] a@[i]).0@ == lossy_utf8(ra[i].0) && a@[i].1@
                    == lossy_utf8(ra[i].1)
        },
        (RawEventView::Text(t), XmlEvent::Text(s)) => s@ == t,
        (RawEventView::End(b), XmlEvent::End(n)) => n@ == lossy_utf8(b),
        (RawEventView::Eof, XmlEvent::Eof) => true,
        (RawEventView::Other, XmlEvent::Other) => true,
        _ => false,
    }
}

/// Read the names and attributes of a raw event as UTF-8; `None` for an
/// error.
pub fn decode_event(raw: &RawXmlEvent) -> (r: Option<XmlEvent>)
    ensures
        raw is Error <==> r is None,
        r matches Some(ev) ==> decodes_to(raw_view(*raw), ev),
{
    match raw {
        RawXmlEvent::Start(b) => Some(XmlEvent::Start(utf8_lossy(b.as_slice()))),
        RawXmlEvent::Empty(b, ra) => {
            let mut a: Vec<(String, String)> = Vec::new();
            let mut i: usize = 0;
            while i < ra.len()
                invariant
                    i <= ra.len(),
                    a@.len() == i,
                    forall|k: int|
                        0 <= k < i ==> (#[trigger] a@[k]).0@ == lossy_utf8(ra@[k].0@) && a@[k].1@
                            == lossy_utf8(ra@[k].1@),
                decreases ra.len() - i,
            {
                let k = utf8_lossy(ra[i].0.as_slice());
                let v = utf8_lossy(ra[i].1.as_slice());
                a.push((k, v));
                i = i + 1;
            }
            Some(XmlEvent::Empty(utf8_lossy(b.as_slice()), a))
        },
        RawXmlEvent::Text(t) => Some(XmlEvent::Text(t.clone())),
        RawXmlEvent::End(b) => Some(XmlEvent::End(utf8_lossy(b.as_slice()))),
        RawXmlEvent::Eof => Some(XmlEvent::Eof),
        RawXmlEvent::Other => Some(XmlEvent::Other),
        RawXmlEvent::Error(_) => None,
    }
}

/// The error of a feed that does not parse: `failed to parse Torznab XML: ..`.
fn xml_error(detail: &str) -> (e: AcquisitionError)
    ensures
        e matches AcquisitionError::XmlParse(m) && m@ == "failed to parse Torznab XML: "@ + detail@,
{
    let mut v = chars_of("failed to parse Torznab XML: ");
    extend_str(&mut v, detail);
    AcquisitionError::XmlParse(string_of(&v))
}

/// Whether an event ends the reading: the end of the document or an error.
pub open spec fn is_terminal(e: RawEventView) -> bool {
    e is Eof || e is Error
}

/// None of the first `n` events of the document ends the reading.
pub open spec fn no_terminal_before(xml: Seq<char>, n: nat) -> bool {
    forall|k: nat| k < n ==> !is_terminal(#[trigger] xml_event_at(xml, k))
}

/// `events` are the first events of the document, decoded.
pub open spec fn decoded_prefix(xml: Seq<char>, events: Seq<XmlEvent>) -> bool {
    forall|k: int| 0 <= k < events.len() ==> decodes_to(xml_event_at(xml, k as nat), #[trigger] events[k])
}

/// The message of a feed that does not parse.
pub open spec fn xml_error_message(detail: Seq<char>) -> Seq<char> {
    "failed to parse Torznab XML: "@ + detail
}

/// What reading a feed gives: the decoded events before the end of the
/// document, or the parser's error, whichever of the two comes first; a
/// document with neither among its first `limit + 1` events (which cannot
/// happen, as every event but the last consumes input) is refused as not
/// ending.
pub open spec fn feed_read_as(xml: Seq<char>, limit: nat, r: Result<Seq<XmlEvent>, Seq<char>>) -> bool {
    match r {
        Ok(events) => {
            &&& events.len() <= limit
            &&& no_terminal_before(xml, events.len())
            &&& xml_event_at(xml, events.len()) is Eof
            &&& decoded_prefix(xml, events)
        },
        Err(m) => {
            ||| exists|n: nat|
                #![trigger xml_event_at(xml, n)]
                n <= limit && no_terminal_before(xml, n) && (xml_event_at(xml, n) matches RawEventView::Error(d)
                    && m == xml_error_message(d))
            ||| no_terminal_before(xml, limit + 1) && m == xml_error_message(
                "the document does not end"@,
            )
        },
    }
}

/// How many events are read before a document is refused as not ending:
/// one per character, within what a counter can hold.
pub open spec fn event_budget(len: nat) -> nat {
    if len < usize::MAX {
        len
    } else {
        (usize::MAX - 1) as nat
    }
}

/// The events a result carries, as texts.
pub open spec fn read_outcome(r: Result<Vec<XmlEvent>, AcquisitionError>) -> Result<Seq<XmlEvent>, Seq<char>> {
    match r {
        Ok(v) => Ok(v@),
        Err(AcquisitionError::XmlParse(m)) => Err(m@),
        Err(_) => Err(seq![]),
    }
}

/// Read the events of a feed up to the end of the document; a parser error
/// fails the whole feed.
fn read_feed_events(xml_body: &str) -> (r: Result<Vec<XmlEvent>, AcquisitionError>)
    ensures
        r matches Err(e) ==> e is XmlParse,
        feed_read_as(xml_body@, event_budget(xml_body@.len()), read_outcome(r)),
{
    let mut reader = open_feed(xml_body);
    let len = xml_body.unicode_len();
    let limit = if len < usize::MAX {
        len
    } else {
        len - 1
    };
    let mut events: Vec<XmlEvent> = Vec::new();
    let mut n: usize = 0;
    loop
        invariant
            n <= limit,
            limit == event_budget(xml_body@.len()),
            limit < usize::MAX,
            reader.text@ == xml_body@,
            reader.count == n,
            events@.len() == n,
            no_terminal_before(xml_body@, n as nat),
            decoded_prefix(xml_body@, events@),
        decreases limit - n,
    {
        let raw = next_feed_event(&mut reader);
        let ghost k = n as nat;
        match raw {
            RawXmlEvent::Eof => {
                let r: Result<Vec<XmlEvent>, AcquisitionError> = Ok(events);
                assert(read_outcome(r) == Ok::<Seq<XmlEvent>, Seq<char>>(events@));
                return r;
            },
            RawXmlEvent::Error(detail) => {
                let e = xml_error(detail.as_str());
                assert(xml_event_at(xml_body@, k) == RawEventView::Error(detail@));
                return Err(e);
            },
            _ => {
                match decode_event(&raw) {
                    Some(ev) => {
                        let ghost before = events@;
                        events.push(ev);
                        proof {
                            assert forall|j: int| 0 <= j < events@.len() implies decodes_to(
                                xml_event_at(xml_body@, j as nat),
                                #[trigger] events@[j],
                            ) by {
                                if j < n {
                                    assert(events@[j] == before[j]);
                                }
                            }
                            assert forall|j: nat| j < n + 1 implies !is_terminal(
                                #[trigger] xml_event_at(xml_body@, j),
                            ) by {
                                if j < n {
                                    assert(no_terminal_before(xml_body@, n as nat));
                                }
                            }
                        }
                    },
                    None => {},
                }
            },
        }
        if n == limit {
            let e = xml_error("the document does not end");
            proof {
                reveal_strlit("the document does not end");
            }
            return Err(e);
        }
        n = n + 1;
    }
}

/// Parse a Torznab/RSS XML response into search results: the results of
/// the items among the document's events, read up to its end; a parser error
/// anywhere before the end fails the whole response.
pub fn parse_torznab_response(xml_body: &str, indexer_name: &str) -> (r: Result<
    Vec<SearchResult>,
    AcquisitionError,
>)
    ensures
        r matches Ok(results) ==> exists|events: Seq<XmlEvent>|
            #[trigger] feed_read_as(xml_body@, event_budget(xml_body@.len()), Ok(events)) && results_of_events(
                results@,
                events,
                indexer_name@,
            ),
        r matches Err(e) ==> e matches AcquisitionError::XmlParse(m) && feed_read_as(
            xml_body@,
            event_budget(xml_body@.len()),
            Err(m@),
        ),
{
    let read = read_feed_events(xml_body);
    match read {
        Ok(events) => {
            let results = parse_torznab_events(&events, indexer_name);
            assert(feed_read_as(xml_body@, event_budget(xml_body@.len()), Ok(events@)));
            Ok(results)
        },
        Err(e) => Err(e),
    }
}

} // verus!
