//! Auto-acquisition: reading download-client states, addressing the clients,
//! naming downloaded and imported files, and ordering indexer results.

use vstd::prelude::*;
use crate::crypto::{hex_encode, hex_lower, sha256, sha256_digest};
use crate::media_token::utf8;
use crate::text::{
    chars_of, chars_eq, decimal, decimal_i64, extend_chars, extend_str, find, find_chars,
    lemma_find_from, lemma_split_nonempty, lowercase, ostr, slice_chars, split_chars, split_on,
    starts_with, str_eq, string_from_str, string_of, to_lowercase, trim, trim_chars, views,
};

verus! {

/// Errors from the acquisition subsystem. Failures of the HTTP client and of
/// I/O carry their description.
#[derive(Debug)]
pub enum AcquisitionError {
    HttpRequest(String),
    XmlParse(String),
    AuthenticationFailed(String),
    ClientError(String),
    NoDownloadClient,
    NoIndexers,
    ImportError(String),
    IoError(String),
}

/// The message of an acquisition error.
pub open spec fn acquisition_error_message(e: AcquisitionError) -> Seq<char> {
    match e {
        AcquisitionError::HttpRequest(m) => "HTTP request failed: "@ + m@,
        AcquisitionError::XmlParse(m) => "XML parse error: "@ + m@,
        AcquisitionError::AuthenticationFailed(m) => "client authentication failed: "@ + m@,
        AcquisitionError::ClientError(m) => "download client error: "@ + m@,
        AcquisitionError::NoDownloadClient => "no enabled download client configured"@,
        AcquisitionError::NoIndexers => "no enabled indexers configured"@,
        AcquisitionError::ImportError(m) => "import error: "@ + m@,
        AcquisitionError::IoError(m) => "IO error: "@ + m@,
    }
}

impl AcquisitionError {
    /// The human-readable message of the error.
    pub fn message(&self) -> (out: String)
        ensures
            out@ == acquisition_error_message(*self),
    {
        let mut v: Vec<char> = Vec::new();
        match self {
            AcquisitionError::HttpRequest(m) => {
                extend_str(&mut v, "HTTP request failed: ");
                extend_str(&mut v, m.as_str());
            },
            AcquisitionError::XmlParse(m) => {
                extend_str(&mut v, "XML parse error: ");
                extend_str(&mut v, m.as_str());
            },
            AcquisitionError::AuthenticationFailed(m) => {
                extend_str(&mut v, "client authentication failed: ");
                extend_str(&mut v, m.as_str());
            },
            AcquisitionError::ClientError(m) => {
                extend_str(&mut v, "download client error: ");
                extend_str(&mut v, m.as_str());
            },
            AcquisitionError::NoDownloadClient => {
                extend_str(&mut v, "no enabled download client configured");
            },
            AcquisitionError::NoIndexers => {
                extend_str(&mut v, "no enabled indexers configured");
            },
            AcquisitionError::ImportError(m) => {
                extend_str(&mut v, "import error: ");
                extend_str(&mut v, m.as_str());
            },
            AcquisitionError::IoError(m) => {
                extend_str(&mut v, "IO error: ");
                extend_str(&mut v, m.as_str());
            },
        }
        string_of(&v)
    }
}

// ---------------------------------------------------------------------------
// Download states
// ---------------------------------------------------------------------------

/// Possible states of a download in a client.
#[derive(Debug, Clone, Copy, PartialEq, Eq, Structural)]
pub enum DownloadState {
    Downloading,
    Seeding,
    Completed,
    Paused,
    Failed,
    Unknown,
}

/// The state of a qBittorrent torrent from its `state` field; `complete`
/// tells whether its progress has reached 1.
pub open spec fn qbittorrent_state_of(state: Seq<char>, complete: bool) -> DownloadState {
    if state == "downloading"@ || state == "stalledDL"@ || state == "forcedDL"@ || state
        == "metaDL"@ || state == "allocating"@ || state == "checkingDL"@ {
        DownloadState::Downloading
    } else if state == "uploading"@ || state == "stalledUP"@ || state == "forcedUP"@ || state
        == "checkingUP"@ {
        DownloadState::Seeding
    } else if state == "pausedDL"@ || state == "pausedUP"@ {
        DownloadState::Paused
    } else if state == "error"@ || state == "missingFiles"@ {
        DownloadState::Failed
    } else if complete {
        DownloadState::Completed
    } else {
        DownloadState::Unknown
    }
}

/// Map a qBittorrent state name to a download state.
pub fn qbittorrent_state(state: &str, complete: bool) -> (out: DownloadState)
    ensures
        out == qbittorrent_state_of(state@, complete),
        (out == DownloadState::Failed) <==> (state@ == "error"@ || state@ == "missingFiles"@),
{
    proof {
        lemma_qbittorrent_failed_and_progress(state@, complete);
    }
    if str_eq(state, "downloading") || str_eq(state, "stalledDL") || str_eq(state, "forcedDL")
        || str_eq(state, "metaDL") || str_eq(state, "allocating") || str_eq(state, "checkingDL") {
        DownloadState::Downloading
    } else if str_eq(state, "uploading") || str_eq(state, "stalledUP") || str_eq(state, "forcedUP")
        || str_eq(state, "checkingUP") {
        DownloadState::Seeding
    } else if str_eq(state, "pausedDL") || str_eq(state, "pausedUP") {
        DownloadState::Paused
    } else if str_eq(state, "error") || str_eq(state, "missingFiles") {
        DownloadState::Failed
    } else if complete {
        DownloadState::Completed
    } else {
        DownloadState::Unknown
    }
}

/// The state of a Transmission torrent from its status code (0 stopped,
/// 1-2 checking, 3-4 downloading, 5-6 seeding); `complete` tells whether it
/// is fully downloaded.
pub open spec fn transmission_state_of(status: i64, complete: bool) -> DownloadState {
    if status == 3 || status == 4 {
        DownloadState::Downloading
    } else if status == 5 || status == 6 {
        DownloadState::Seeding
    } else if status == 0 {
        if complete {
            DownloadState::Completed
        } else {
            DownloadState::Paused
        }
    } else if status == 1 || status == 2 {
        DownloadState::Downloading
    } else {
        DownloadState::Unknown
    }
}

/// Map a Transmission status code to a download state.
pub fn transmission_state(status: i64, complete: bool) -> (out: DownloadState)
    ensures
        out == transmission_state_of(status, complete),
{
    if status == 3 || status == 4 {
        DownloadState::Downloading
    } else if status == 5 || status == 6 {
        DownloadState::Seeding
    } else if status == 0 {
        if complete {
            DownloadState::Completed
        } else {
            DownloadState::Paused
        }
    } else if status == 1 || status == 2 {
        DownloadState::Downloading
    } else {
        DownloadState::Unknown
    }
}

/// The state of a Deluge torrent from its `state` field; `complete` tells
/// whether its progress has reached 100.
pub open spec fn deluge_state_of(state: Seq<char>, complete: bool) -> DownloadState {
    if state == "Downloading"@ {
        DownloadState::Downloading
    } else if state == "Seeding"@ {
        DownloadState::Seeding
    } else if state == "Paused"@ {
        DownloadState::Paused
    } else if state == "Error"@ {
        DownloadState::Failed
    } else if state == "Checking"@ || state == "Queued"@ || state == "Moving"@ {
        DownloadState::Downloading
    } else if complete {
        DownloadState::Completed
    } else {
        DownloadState::Unknown
    }
}

/// Map a Deluge state name to a download state.
pub fn deluge_state(state: &str, complete: bool) -> (out: DownloadState)
    ensures
        out == deluge_state_of(state@, complete),
        (out == DownloadState::Failed) <==> state@ == "Error"@,
{
    proof {
        lemma_deluge_failed_and_progress(state@, complete);
    }
    if str_eq(state, "Downloading") {
        DownloadState::Downloading
    } else if str_eq(state, "Seeding") {
        DownloadState::Seeding
    } else if str_eq(state, "Paused") {
        DownloadState::Paused
    } else if str_eq(state, "Error") {
        DownloadState::Failed
    } else if str_eq(state, "Checking") || str_eq(state, "Queued") || str_eq(state, "Moving") {
        DownloadState::Downloading
    } else if complete {
        DownloadState::Completed
    } else {
        DownloadState::Unknown
    }
}

/// The qBittorrent states a torrent is known by; for any other state the
/// progress decides.
pub open spec fn qbittorrent_known_state(state: Seq<char>) -> bool {
    state == "downloading"@ || state == "stalledDL"@ || state == "forcedDL"@ || state == "metaDL"@ || state
        == "allocating"@ || state == "checkingDL"@ || state == "uploading"@ || state == "stalledUP"@ || state
        == "forcedUP"@ || state == "checkingUP"@ || state == "pausedDL"@ || state == "pausedUP"@ || state
        == "error"@ || state == "missingFiles"@
}

/// A qBittorrent torrent has failed exactly when its state is `error` or
/// `missingFiles`, whatever its progress; its progress matters only for a
/// state that is none of the known ones, which is then completed once fully
/// downloaded and unknown before.
pub proof fn lemma_qbittorrent_failed_and_progress(state: Seq<char>, complete: bool)
    ensures
        (qbittorrent_state_of(state, complete) == DownloadState::Failed) <==> (state == "error"@ || state
            == "missingFiles"@),
        qbittorrent_known_state(state) ==> qbittorrent_state_of(state, true) == qbittorrent_state_of(state, false),
        !qbittorrent_known_state(state) ==> qbittorrent_state_of(state, true) == DownloadState::Completed
            && qbittorrent_state_of(state, false) == DownloadState::Unknown,
{
    reveal_strlit("downloading");
    reveal_strlit("stalledDL");
    reveal_strlit("forcedDL");
    reveal_strlit("metaDL");
    reveal_strlit("allocating");
    reveal_strlit("checkingDL");
    reveal_strlit("uploading");
    reveal_strlit("stalledUP");
    reveal_strlit("forcedUP");
    reveal_strlit("checkingUP");
    reveal_strlit("pausedDL");
    reveal_strlit("pausedUP");
    reveal_strlit("error");
    reveal_strlit("missingFiles");
    if state == "error"@ {
        assert(state[0] == 'e');
        assert(state != "downloading"@ && state != "stalledDL"@ && state != "forcedDL"@ && state != "metaDL"@);
        assert(state != "allocating"@ && state != "checkingDL"@ && state != "uploading"@);
        assert(state != "stalledUP"@ && state != "forcedUP"@ && state != "checkingUP"@);
        assert(state != "pausedDL"@ && state != "pausedUP"@);
    }
    if state == "missingFiles"@ {
        assert(state[0] == 'm' && state[1] == 'i');
        assert(state != "downloading"@ && state != "stalledDL"@ && state != "forcedDL"@ && state != "metaDL"@);
        assert(state != "allocating"@ && state != "checkingDL"@ && state != "uploading"@);
        assert(state != "stalledUP"@ && state != "forcedUP"@ && state != "checkingUP"@);
        assert(state != "pausedDL"@ && state != "pausedUP"@);
    }
}

/// A Transmission torrent is completed exactly when it is stopped (status
/// 0) and fully downloaded, and paused exactly when it is stopped before
/// that; it is never reported failed.
pub proof fn lemma_transmission_stopped(status: i64, complete: bool)
    ensures
        (transmission_state_of(status, complete) == DownloadState::Completed) <==> (status == 0 && complete),
        (transmission_state_of(status, complete) == DownloadState::Paused) <==> (status == 0 && !complete),
        transmission_state_of(status, complete) != DownloadState::Failed,
        (3 <= status <= 4 || 1 <= status <= 2) ==> transmission_state_of(status, complete)
            == DownloadState::Downloading,
        5 <= status <= 6 ==> transmission_state_of(status, complete) == DownloadState::Seeding,
{
}

/// The Deluge states a torrent is known by; for any other state the progress
/// decides.
pub open spec fn deluge_known_state(state: Seq<char>) -> bool {
    state == "Downloading"@ || state == "Seeding"@ || state == "Paused"@ || state == "Error"@ || state
        == "Checking"@ || state == "Queued"@ || state == "Moving"@
}

/// A Deluge torrent has failed exactly when its state is `Error`, whatever
/// its progress; its progress matters only for a state that is none of the
/// known ones.
pub proof fn lemma_deluge_failed_and_progress(state: Seq<char>, complete: bool)
    ensures
        (deluge_state_of(state, complete) == DownloadState::Failed) <==> state == "Error"@,
        deluge_known_state(state) ==> deluge_state_of(state, true) == deluge_state_of(state, false),
        !deluge_known_state(state) ==> deluge_state_of(state, true) == DownloadState::Completed
            && deluge_state_of(state, false) == DownloadState::Unknown,
{
    reveal_strlit("Downloading");
    reveal_strlit("Seeding");
    reveal_strlit("Paused");
    reveal_strlit("Error");
    if state == "Error"@ {
        assert(state[0] == 'E');
        assert(state != "Downloading"@ && state != "Seeding"@ && state != "Paused"@);
    }
}

// ---------------------------------------------------------------------------
// Download clients
// ---------------------------------------------------------------------------

/// A configured download client (qBittorrent, Transmission, Deluge or direct).
#[derive(Debug, Clone)]
pub struct StoredDownloadClient {
    pub id: String,
    pub name: String,
    pub client_type: String,
    pub host: String,
    pub port: i32,
    pub use_ssl: bool,
    pub username: Option<String>,
    pub password: Option<String>,
    pub download_directory: Option<String>,
    pub category: Option<String>,
    pub is_enabled: bool,
    pub priority: i32,
}

/// `SCHEME://HOST:PORT` followed by `suffix`, the scheme being `https` when
/// the client uses TLS.
pub open spec fn client_url(c: StoredDownloadClient, suffix: Seq<char>) -> Seq<char> {
    (if c.use_ssl {
        "https"@
    } else {
        "http"@
    }) + "://"@ + c.host@ + ":"@ + decimal(c.port as int) + suffix
}

/// `SCHEME://HOST:PORT` + `suffix`, computed.
fn build_client_url(c: &StoredDownloadClient, suffix: &str) -> (out: String)
    ensures
        out@ == client_url(*c, suffix@),
{
    let mut v: Vec<char> = Vec::new();
    if c.use_ssl {
        extend_str(&mut v, "https");
    } else {
        extend_str(&mut v, "http");
    }
    extend_str(&mut v, "://");
    extend_str(&mut v, c.host.as_str());
    extend_str(&mut v, ":");
    let p = decimal_i64(c.port as i64);
    extend_chars(&mut v, &p);
    extend_str(&mut v, suffix);
    string_of(&v)
}

/// The base URL of a qBittorrent web API.
pub fn qbittorrent_base_url(client_config: &StoredDownloadClient) -> (out: String)
    ensures
        out@ == client_url(*client_config, ""@),
{
    build_client_url(client_config, "")
}

/// The JSON-RPC URL of a Transmission daemon.
pub fn transmission_rpc_url(client_config: &StoredDownloadClient) -> (out: String)
    ensures
        out@ == client_url(*client_config, "/transmission/rpc"@),
{
    build_client_url(client_config, "/transmission/rpc")
}

/// The JSON-RPC URL of a Deluge web UI.
pub fn deluge_rpc_url(client_config: &StoredDownloadClient) -> (out: String)
    ensures
        out@ == client_url(*client_config, "/json"@),
{
    build_client_url(client_config, "/json")
}

// ---------------------------------------------------------------------------
// Hashes and file names
// ---------------------------------------------------------------------------

/// `s` with every leading copy of the non-empty `p` removed
/// (`str::trim_start_matches` with a string pattern).
pub open spec fn trim_start_str(s: Seq<char>, p: Seq<char>) -> Seq<char>
    decreases s.len(),
{
    if p.len() > 0 && starts_with(s, p) {
        trim_start_str(s.skip(p.len() as int), p)
    } else {
        s
    }
}

/// The info hash carried by the first `&`-separated parameter (with any
/// leading `magnet:?` removed) that starts with `xt=urn:btih:`, from the
/// `n`-th on; lowercased.
pub open spec fn magnet_hash_from(params: Seq<Seq<char>>, n: nat) -> Option<Seq<char>>
    decreases params.len() - n,
{
    if n >= params.len() {
        None
    } else {
        let p = trim_start_str(params[n as int], "magnet:?"@);
        if starts_with(p, "xt=urn:btih:"@) {
            Some(lowercase(p.skip("xt=urn:btih:"@.len() as int)))
        } else {
            magnet_hash_from(params, n + 1)
        }
    }
}

/// Remove every leading copy of `p` from `s`.
fn trim_start_matches_chars(s: &Vec<char>, p: &Vec<char>) -> (out: Vec<char>)
    requires
        p.len() > 0,
    ensures
        out@ == trim_start_str(s@, p@),
{
    let mut i: usize = 0;
    assert(s@.skip(0) =~= s@);
    while crate::text::matches_at_exec(s, p, i)
        invariant
            i <= s.len(),
            p.len() > 0,
            trim_start_str(s@.skip(i as int), p@) == trim_start_str(s@, p@),
        decreases s.len() - i,
    {
        let ghost rest = s@.skip(i as int);
        assert(rest.subrange(0, p@.len() as int) =~= s@.subrange(i as int, i + p@.len()));
        assert(rest.skip(p@.len() as int) =~= s@.skip(i + p.len()));
        i = i + p.len();
    }
    proof {
        let rest = s@.skip(i as int);
        if starts_with(rest, p@) {
            assert(rest.subrange(0, p@.len() as int) =~= s@.subrange(i as int, i + p@.len()));
        }
    }
    let out = slice_chars(s, i, s.len());
    assert(out@ =~= s@.skip(i as int));
    out
}

/// Extract the info hash from a magnet URI (`xt=urn:btih:<hash>`), lowercased.
pub fn extract_info_hash_from_magnet(magnet: &str) -> (out: Option<String>)
    ensures
        ostr(out) == magnet_hash_from(split_on(magnet@, '&'), 0),
{
    let m = chars_of(magnet);
    let params = split_chars(&m, '&');
    let prefix = chars_of("magnet:?");
    let key = chars_of("xt=urn:btih:");
    proof {
        reveal_strlit("magnet:?");
        reveal_strlit("xt=urn:btih:");
    }
    let mut i: usize = 0;
    while i < params.len()
        invariant
            i <= params.len(),
            views(params@) == split_on(m@, '&'),
            m@ == magnet@,
            prefix@ == "magnet:?"@,
            key@ == "xt=urn:btih:"@,
            prefix.len() > 0,
            magnet_hash_from(split_on(magnet@, '&'), i as nat) == magnet_hash_from(
                split_on(magnet@, '&'),
                0,
            ),
        decreases params.len() - i,
    {
        assert(views(params@)[i as int] == params@[i as int]@);
        let p = trim_start_matches_chars(&params[i], &prefix);
        if crate::text::matches_at_exec(&p, &key, 0) {
            let v = slice_chars(&p, key.len(), p.len());
            assert(v@ =~= p@.skip(key@.len() as int));
            let vs = string_of(&v);
            return Some(to_lowercase(vs.as_str()));
        }
        i = i + 1;
    }
    None
}

/// The short digest of a text: the lowercase hex of the first 20 bytes of the
/// SHA-256 digest of its UTF-8 bytes (40 characters).
pub open spec fn sha256_short_of(s: Seq<char>) -> Seq<char> {
    hex_lower(sha256(utf8(s)).take(20))
}

/// Produce a short SHA-256 hex digest of a string (first 40 hex characters).
pub fn sha256_short(input: &str) -> (out: String)
    ensures
        out@ == sha256_short_of(input@),
{
    let digest = sha256_digest(input.as_bytes());
    let mut head: Vec<u8> = Vec::new();
    let mut i: usize = 0;
    while i < 20
        invariant
            i <= 20,
            digest@.len() == 32,
            head@ == digest@.take(i as int),
        decreases 20 - i,
    {
        head.push(digest[i]);
        i = i + 1;
        assert(head@ =~= digest@.take(i as int));
    }
    hex_encode(head.as_slice())
}

/// The file-name extensions (lowercase) that the importer accepts as ebooks.
pub open spec fn is_ebook_extension(e: Seq<char>) -> bool {
    e == "epub"@ || e == "pdf"@ || e == "cbz"@ || e == "cbr"@ || e == "mobi"@ || e == "azw3"@ || e
        == "fb2"@ || e == "djvu"@
}

/// Check whether a file with this extension (as `Path::extension` gives it)
/// is an ebook: its lowercase form is a recognized ebook extension.
pub fn is_ebook_file(extension: Option<&str>) -> (r: bool)
    ensures
        r == match extension {
            Some(e) => is_ebook_extension(lowercase(e@)),
            None => false,
        },
{
    match extension {
        None => false,
        Some(e) => {
            let l = to_lowercase(e);
            let s = l.as_str();
            str_eq(s, "epub") || str_eq(s, "pdf") || str_eq(s, "cbz") || str_eq(s, "cbr") || str_eq(
                s,
                "mobi",
            ) || str_eq(s, "azw3") || str_eq(s, "fb2") || str_eq(s, "djvu")
        },
    }
}

/// The file name tried for the `counter`-th alternative when a file of the
/// same name already exists: `STEM (N)` or `STEM (N).EXT`.
pub open spec fn numbered_name(stem: Seq<char>, extension: Seq<char>, counter: u32) -> Seq<char> {
    if extension.len() == 0 {
        stem + " ("@ + decimal(counter as int) + ")"@
    } else {
        stem + " ("@ + decimal(counter as int) + ")."@ + extension
    }
}

/// The numbered alternative file name for an import destination.
pub fn numbered_file_name(stem: &str, extension: &str, counter: u32) -> (out: String)
    ensures
        out@ == numbered_name(stem@, extension@, counter),
{
    let mut v: Vec<char> = Vec::new();
    extend_str(&mut v, stem);
    extend_str(&mut v, " (");
    let d = decimal_i64(counter as i64);
    extend_chars(&mut v, &d);
    let ext = chars_of(extension);
    if ext.len() == 0 {
        extend_str(&mut v, ")");
    } else {
        extend_str(&mut v, ").");
        extend_str(&mut v, extension);
    }
    string_of(&v)
}

/// Result of an import operation.
#[derive(Debug)]
pub struct ImportResult {
    /// Path where the file was copied to in the library.
    pub destination_path: String,
    /// Detected format of the imported file.
    pub format: String,
    /// Size of the imported file in bytes.
    pub size_bytes: u64,
    /// File name as it appears in the library.
    pub file_name: String,
}

// ---------------------------------------------------------------------------
// Author guessing
// ---------------------------------------------------------------------------

/// The delimiters that end an author name after " by ".
pub open spec fn is_author_delim(c: char) -> bool {
    c == '-' || c == '(' || c == '[' || c == ','
}

/// `s` up to (not including) its first author delimiter.
pub open spec fn upto_delim(s: Seq<char>) -> Seq<char>
    decreases s.len(),
{
    if s.len() == 0 || is_author_delim(s[0]) {
        seq![]
    } else {
        seq![s[0]] + upto_delim(s.drop_first())
    }
}

/// The guess of an author from a release title, given the title and its
/// lowercase form: the trimmed part before the first " - " when it contains
/// a space and is shorter than 60 bytes; else the trimmed part after the
/// first " by " (found in the lowercase form) up to the next `-`, `(`, `[` or
/// `,`, when it is non-empty and shorter than 60 bytes.
pub open spec fn guess_author_of(title: Seq<char>, lower: Seq<char>) -> Option<Seq<char>> {
    let by_dash = match find(title, " - "@) {
        Some(d) => {
            let c = trim(title.take(d as int));
            if c.contains(' ') && utf8(c).len() < 60 {
                Some(c)
            } else {
                None
            }
        },
        None => None,
    };
    if by_dash is Some {
        by_dash
    } else {
        match find(lower, " by "@) {
            None => None,
            Some(b) => {
                let start: int = if b + 4 <= title.len() {
                    (b + 4) as int
                } else {
                    title.len() as int
                };
                let c = trim(upto_delim(title.skip(start)));
                if c.len() > 0 && utf8(c).len() < 60 {
                    Some(c)
                } else {
                    None
                }
            },
        }
    }
}

/// The number of UTF-8 bytes of a text.
fn utf8_len(c: &Vec<char>) -> (n: usize)
    ensures
        n == utf8(c@).len(),
{
    let s = string_of(c);
    s.as_str().as_bytes().len()
}

/// `s` up to its first author delimiter, computed.
fn upto_delim_chars(s: &Vec<char>) -> (out: Vec<char>)
    ensures
        out@ == upto_delim(s@),
{
    let mut i: usize = 0;
    while i < s.len() && !(s[i] == '-' || s[i] == '(' || s[i] == '[' || s[i] == ',')
        invariant
            i <= s.len(),
            forall|j: int| 0 <= j < i ==> !is_author_delim(#[trigger] s@[j]),
        decreases s.len() - i,
    {
        i = i + 1;
    }
    let out = slice_chars(s, 0, i);
    proof {
        lemma_upto_delim(s@, i as int);
    }
    out
}

/// `upto_delim` stops at the first delimiter.
proof fn lemma_upto_delim(s: Seq<char>, i: int)
    requires
        0 <= i <= s.len(),
        forall|j: int| 0 <= j < i ==> !is_author_delim(#[trigger] s[j]),
        i == s.len() || is_author_delim(s[i]),
    ensures
        upto_delim(s) == s.subrange(0, i),
    decreases i,
{
    if i == 0 {
        assert(s.subrange(0, 0) =~= Seq::<char>::empty());
    } else {
        let t = s.drop_first();
        assert forall|j: int| 0 <= j < i - 1 implies !is_author_delim(#[trigger] t[j]) by {
            assert(t[j] == s[j + 1]);
        }
        lemma_upto_delim(t, i - 1);
        assert(s.subrange(0, i) =~= seq![s[0]] + t.subrange(0, i - 1));
    }
}

/// Attempt to guess the author name from a release title, from the patterns
/// "Author Name - Book Title" and "Book Title by Author Name". Positions
/// found in the lowercase title are used in the title itself, which agrees
/// with byte positions whenever lowercasing keeps each character's UTF-8
/// width.
pub fn guess_author_from_title(title: &str) -> (out: Option<String>)
    ensures
        ostr(out) == guess_author_of(title@, lowercase(title@)),
{
    let t = chars_of(title);
    let dash = chars_of(" - ");
    proof {
        lemma_find_from(t@, dash@, 0);
    }
    match find_chars(&t, &dash, 0) {
        Some(d) => {
            let head = slice_chars(&t, 0, d);
            assert(head@ =~= t@.take(d as int));
            let c = trim_chars(&head);
            if crate::text::contains_char(&c, ' ') && utf8_len(&c) < 60 {
                return Some(string_of(&c));
            }
        },
        None => {},
    }
    let lower = to_lowercase(title);
    let l = chars_of(lower.as_str());
    let by = chars_of(" by ");
    match find_chars(&l, &by, 0) {
        None => None,
        Some(b) => {
            let start = if b <= t.len() && 4 <= t.len() - b {
                b + 4
            } else {
                t.len()
            };
            let after = slice_chars(&t, start, t.len());
            assert(after@ =~= t@.skip(start as int));
            let piece = upto_delim_chars(&after);
            let c = trim_chars(&piece);
            if c.len() > 0 && utf8_len(&c) < 60 {
                Some(string_of(&c))
            } else {
                None
            }
        },
    }
}

// ---------------------------------------------------------------------------
// Direct downloads
// ---------------------------------------------------------------------------

/// The value of a hexadecimal digit byte (either case).
pub open spec fn from_hex_digit(b: u8) -> Option<u8> {
    if 48 <= b <= 57 {
        Some((b - 48) as u8)
    } else if 65 <= b <= 70 {
        Some((b - 55) as u8)
    } else if 97 <= b <= 102 {
        Some((b - 87) as u8)
    } else {
        None
    }
}

/// Percent-decoding of bytes: `%` and two hexadecimal digits become the
/// byte they spell; every other byte, a `%` without two digits after it
/// included, stays as it is (`+` too).
pub open spec fn percent_decoded(b: Seq<u8>) -> Seq<u8>
    decreases b.len(),
{
    if b.len() == 0 {
        seq![]
    } else if b[0] == 37 && b.len() >= 3 && from_hex_digit(b[1]) is Some && from_hex_digit(b[2]) is Some {
        seq![(from_hex_digit(b[1]).unwrap() * 16 + from_hex_digit(b[2]).unwrap()) as u8] + percent_decoded(
            b.skip(3),
        )
    } else {
        seq![b[0]] + percent_decoded(b.skip(1))
    }
}

/// What `urlencoding::decode` gives for a text: its UTF-8 bytes
/// percent-decoded, read back as UTF-8; `None` when they are not valid
/// UTF-8.
pub open spec fn url_decoded(s: Seq<char>) -> Option<Seq<char>> {
    let bytes = percent_decoded(utf8(s));
    if vstd::utf8::valid_utf8(bytes) {
        Some(vstd::utf8::decode_utf8(bytes))
    } else {
        None
    }
}

/// `urlencoding::decode`: percent-decoding of `s` as [`url_decoded`] states
/// it (the crate's `decode_binary`, then `String::from_utf8`), or `None`
/// where the decoded bytes are not valid UTF-8.
#[verifier::external_body]
fn url_decode(s: &str) -> (r: Option<String>)
    ensures
        ostr(r) == url_decoded(s@),
{
    match urlencoding::decode(s) {
        Ok(d) => Some(d.into_owned()),
        Err(_) => None,
    }
}

/// The last `/`-separated segment of a URL.
pub open spec fn last_segment(url: Seq<char>) -> Seq<char> {
    split_on(url, '/').last()
}

/// The file name a direct download is saved under: the last path segment of
/// the URL, percent-decoded (an undecodable segment counts as empty), cut at
/// the first `?`; when that is empty, the short digest of the URL followed by
/// `.download`.
pub open spec fn direct_file_name_of(url: Seq<char>) -> Seq<char> {
    let decoded = match url_decoded(last_segment(url)) {
        Some(d) => d,
        None => seq![],
    };
    let cleaned = split_on(decoded, '?')[0];
    if cleaned.len() > 0 {
        cleaned
    } else {
        sha256_short_of(url) + ".download"@
    }
}

/// The file name under which a direct download is stored.
pub fn direct_download_file_name(download_url: &str) -> (out: String)
    ensures
        out@ == direct_file_name_of(download_url@),
{
    let u = chars_of(download_url);
    let segs = split_chars(&u, '/');
    let last = &segs[segs.len() - 1];
    assert(views(segs@).last() == last@);
    let ls = string_of(last);
    let decoded = match url_decode(ls.as_str()) {
        Some(d) => chars_of(d.as_str()),
        None => Vec::new(),
    };
    let parts = split_chars(&decoded, '?');
    assert(views(parts@)[0] == parts@[0]@);
    let cleaned = &parts[0];
    if cleaned.len() > 0 {
        string_of(cleaned)
    } else {
        let h = sha256_short(download_url);
        let mut v = chars_of(h.as_str());
        extend_str(&mut v, ".download");
        string_of(&v)
    }
}

// ---------------------------------------------------------------------------
// Search results
// ---------------------------------------------------------------------------

/// A search result from an indexer query.
#[derive(Debug, Clone)]
pub struct SearchResult {
    pub title: String,
    pub author_guess: Option<String>,
    pub size_bytes: Option<i64>,
    pub download_url: String,
    pub magnet_url: Option<String>,
    pub info_hash: Option<String>,
    pub seeders: Option<i32>,
    pub leechers: Option<i32>,
    pub category: Option<String>,
    pub indexer_name: String,
    pub published_at: Option<String>,
}

/// The seeders of a result, none counting as zero.
pub open spec fn seeders_key(r: SearchResult) -> int {
    match r.seeders {
        Some(n) => n as int,
        None => 0,
    }
}

/// Whether some result among the first `n` of `s` has the download URL `url`.
pub open spec fn url_seen(s: Seq<SearchResult>, n: int, url: Seq<char>) -> bool {
    exists|j: int| 0 <= j < n && #[trigger] s[j].download_url@ == url
}

/// The results with a download URL already seen earlier dropped: the first
/// result of each URL stays, in its place.
pub open spec fn dedup_by_url(s: Seq<SearchResult>) -> Seq<SearchResult>
    decreases s.len(),
{
    if s.len() == 0 {
        seq![]
    } else if url_seen(s, s.len() - 1, s.last().download_url@) {
        dedup_by_url(s.drop_last())
    } else {
        dedup_by_url(s.drop_last()).push(s.last())
    }
}

/// How many results at the front of `sorted` have at least `k` seeders.
pub open spec fn count_at_least(sorted: Seq<SearchResult>, k: int) -> nat
    decreases sorted.len(),
{
    if sorted.len() > 0 && seeders_key(sorted[0]) >= k {
        1 + count_at_least(sorted.drop_first(), k)
    } else {
        0
    }
}

/// `x` placed after every leading result with at least as many seeders.
pub open spec fn insert_by_seeders(sorted: Seq<SearchResult>, x: SearchResult) -> Seq<SearchResult> {
    sorted.insert(count_at_least(sorted, seeders_key(x)) as int, x)
}

/// The stable sort of `s` by seeders, most first: results with equal seeders
/// keep their order.
pub open spec fn sort_by_seeders(s: Seq<SearchResult>) -> Seq<SearchResult>
    decreases s.len(),
{
    if s.len() == 0 {
        seq![]
    } else {
        insert_by_seeders(sort_by_seeders(s.drop_last()), s.last())
    }
}

/// What `deduplicate_and_sort` leaves: duplicates by download URL removed,
/// then stably sorted by seeders, most first.
pub open spec fn dedup_and_sort(s: Seq<SearchResult>) -> Seq<SearchResult> {
    sort_by_seeders(dedup_by_url(s))
}

/// Whether results are ordered by seeders, most first.
pub open spec fn seeders_descending(s: Seq<SearchResult>) -> bool {
    forall|i: int, j: int| 0 <= i < j < s.len() ==> seeders_key(s[i]) >= seeders_key(s[j])
}

/// `count_at_least` counts a prefix whose results all have at least `k`
/// seeders and stops at one with fewer.
proof fn lemma_count_at_least(sorted: Seq<SearchResult>, k: int)
    ensures
        count_at_least(sorted, k) <= sorted.len(),
        forall|i: int| 0 <= i < count_at_least(sorted, k) ==> seeders_key(#[trigger] sorted[i]) >= k,
        count_at_least(sorted, k) < sorted.len() ==> seeders_key(
            sorted[count_at_least(sorted, k) as int],
        ) < k,
    decreases sorted.len(),
{
    if sorted.len() > 0 && seeders_key(sorted[0]) >= k {
        let t = sorted.drop_first();
        lemma_count_at_least(t, k);
        assert forall|i: int| 0 <= i < count_at_least(sorted, k) implies seeders_key(
            #[trigger] sorted[i],
        ) >= k by {
            if i > 0 {
                assert(sorted[i] == t[i - 1]);
            }
        }
    }
}

/// The sorted results are ordered by seeders, most first, and as many as the
/// results sorted.
pub proof fn lemma_sort_by_seeders(s: Seq<SearchResult>)
    ensures
        seeders_descending(sort_by_seeders(s)),
        sort_by_seeders(s).len() == s.len(),
    decreases s.len(),
{
    if s.len() > 0 {
        let prev = sort_by_seeders(s.drop_last());
        lemma_sort_by_seeders(s.drop_last());
        let x = s.last();
        let k = seeders_key(x);
        lemma_count_at_least(prev, k);
        let p = count_at_least(prev, k) as int;
        let out = prev.insert(p, x);
        assert forall|i: int, j: int| 0 <= i < j < out.len() implies seeders_key(out[i])
            >= seeders_key(out[j]) by {
            if j < p {
                assert(out[i] == prev[i] && out[j] == prev[j]);
            } else if j == p {
                assert(out[i] == prev[i]);
            } else if i < p {
                assert(out[i] == prev[i] && out[j] == prev[j - 1]);
            } else if i == p {
                assert(out[j] == prev[j - 1]);
                assert(seeders_key(prev[p]) < k);
                assert(seeders_key(prev[p]) >= seeders_key(prev[j - 1]) || p == j - 1);
            } else {
                assert(out[i] == prev[i - 1] && out[j] == prev[j - 1]);
            }
        }
    }
}

/// After deduplication no two results share a download URL, and the URLs
/// kept are exactly the URLs of the results.
pub proof fn lemma_dedup_by_url(s: Seq<SearchResult>)
    ensures
        forall|i: int, j: int|
            0 <= i < j < dedup_by_url(s).len() ==> dedup_by_url(s)[i].download_url@
                != dedup_by_url(s)[j].download_url@,
        forall|url: Seq<char>| url_seen(dedup_by_url(s), dedup_by_url(s).len() as int, url)
            <==> url_seen(s, s.len() as int, url),
    decreases s.len(),
{
    if s.len() > 0 {
        let t = s.drop_last();
        lemma_dedup_by_url(t);
        let d = dedup_by_url(t);
        let x = s.last();
        assert forall|url: Seq<char>| url_seen(t, t.len() as int, url) <==> url_seen(
            s,
            s.len() - 1,
            url,
        ) by {
            if url_seen(t, t.len() as int, url) {
                let j = choose|j: int| 0 <= j < t.len() && #[trigger] t[j].download_url@ == url;
                assert(s[j] == t[j]);
            }
            if url_seen(s, s.len() - 1, url) {
                let j = choose|j: int| 0 <= j < s.len() - 1 && #[trigger] s[j].download_url@ == url;
                assert(t[j] == s[j]);
            }
        }
        assert forall|url: Seq<char>| url_seen(s, s.len() as int, url) <==> (url_seen(
            s,
            s.len() - 1,
            url,
        ) || x.download_url@ == url) by {
            if url_seen(s, s.len() as int, url) {
                let j = choose|j: int| 0 <= j < s.len() && #[trigger] s[j].download_url@ == url;
                if j < s.len() - 1 {
                    assert(url_seen(s, s.len() - 1, url));
                }
            }
            if url_seen(s, s.len() - 1, url) {
                let j = choose|j: int| 0 <= j < s.len() - 1 && #[trigger] s[j].download_url@ == url;
                assert(url_seen(s, s.len() as int, url));
            }
            if x.download_url@ == url {
                assert(s[s.len() - 1].download_url@ == url);
            }
        }
        let xu = x.download_url@;
        assert(url_seen(d, d.len() as int, xu) == url_seen(t, t.len() as int, xu));
        assert(url_seen(t, t.len() as int, xu) == url_seen(s, s.len() - 1, xu));
        if url_seen(s, s.len() - 1, xu) {
            assert(dedup_by_url(s) == d);
            assert forall|url: Seq<char>| #[trigger] url_seen(d, d.len() as int, url) <==> url_seen(
                s,
                s.len() as int,
                url,
            ) by {
                assert(url_seen(d, d.len() as int, url) == url_seen(t, t.len() as int, url));
                assert(url_seen(t, t.len() as int, url) == url_seen(s, s.len() - 1, url));
                assert(url_seen(s, s.len() as int, url) == (url_seen(s, s.len() - 1, url) || xu
                    == url));
            }
        } else {
            let e = d.push(x);
            assert(dedup_by_url(s) == e);
            assert(!url_seen(d, d.len() as int, x.download_url@));
            assert forall|i: int, j: int| 0 <= i < j < e.len() implies e[i].download_url@
                != e[j].download_url@ by {
                assert(e[i] == d[i]);
                if j == e.len() - 1 {
                    assert(e[j] == x);
                    if e[i].download_url@ == x.download_url@ {
                        assert(url_seen(d, d.len() as int, x.download_url@));
                    }
                } else {
                    assert(e[j] == d[j]);
                }
            }
            assert forall|url: Seq<char>| url_seen(e, e.len() as int, url) <==> (url_seen(
                d,
                d.len() as int,
                url,
            ) || x.download_url@ == url) by {
                if url_seen(e, e.len() as int, url) {
                    let j = choose|j: int| 0 <= j < e.len() && #[trigger] e[j].download_url@ == url;
                    if j < d.len() {
                        assert(e[j] == d[j]);
                        assert(url_seen(d, d.len() as int, url));
                    }
                }
                if url_seen(d, d.len() as int, url) {
                    let j = choose|j: int| 0 <= j < d.len() && #[trigger] d[j].download_url@ == url;
                    assert(e[j] == d[j]);
                    assert(url_seen(e, e.len() as int, url));
                }
                if x.download_url@ == url {
                    assert(e[e.len() - 1] == x);
                    assert(url_seen(e, e.len() as int, url));
                }
            }
            assert forall|url: Seq<char>| #[trigger] url_seen(e, e.len() as int, url) <==> url_seen(
                s,
                s.len() as int,
                url,
            ) by {
                assert(url_seen(e, e.len() as int, url) == (url_seen(d, d.len() as int, url) || xu
                    == url));
                assert(url_seen(d, d.len() as int, url) == url_seen(t, t.len() as int, url));
                assert(url_seen(t, t.len() as int, url) == url_seen(s, s.len() - 1, url));
                assert(url_seen(s, s.len() as int, url) == (url_seen(s, s.len() - 1, url) || xu
                    == url));
            }
        }
    }
}

/// The seeders of a result, none counting as zero.
fn seeders_of(r: &SearchResult) -> (n: i32)
    ensures
        n == seeders_key(*r),
{
    match r.seeders {
        Some(v) => v,
        None => 0,
    }
}

/// Deduplicate results by download URL (the first of each stays) and sort
/// them by seeders, most first (none counting as zero); the sort is stable.
pub fn deduplicate_and_sort(results: &mut Vec<SearchResult>)
    ensures
        final(results)@ == dedup_and_sort(old(results)@),
{
    let ghost input = results@;
    let total = results.len();
    assert(input.len() == total);
    let mut rest: Vec<SearchResult> = Vec::new();
    std::mem::swap(&mut rest, results);
    // Deduplicate, keeping the first result of each URL.
    let mut kept: Vec<SearchResult> = Vec::new();
    let mut n: usize = 0;
    while rest.len() > 0
        invariant
            n + rest@.len() == input.len(),
            input.len() <= usize::MAX,
            rest@ == input.skip(n as int),
            kept@ == dedup_by_url(input.take(n as int)),
            forall|url: Seq<char>| url_seen(kept@, kept@.len() as int, url) <==> url_seen(
                input,
                n as int,
                url,
            ),
        decreases rest.len(),
    {
        let x = rest.remove(0);
        let ghost pre = input.take(n as int);
        assert(input.take(n + 1).drop_last() =~= pre);
        assert(input.take(n + 1).last() == x);
        let mut seen = false;
        let mut k: usize = 0;
        while k < kept.len()
            invariant
                k <= kept.len(),
                seen <==> exists|j: int| 0 <= j < k && #[trigger] kept@[j].download_url@
                    == x.download_url@,
            decreases kept.len() - k,
        {
            if str_eq(kept[k].download_url.as_str(), x.download_url.as_str()) {
                seen = true;
            }
            k = k + 1;
        }
        proof {
            assert(url_seen(kept@, kept@.len() as int, x.download_url@) == seen);
            assert(url_seen(input.take(n + 1), n as int, x.download_url@) == url_seen(
                input,
                n as int,
                x.download_url@,
            )) by {
                if url_seen(input, n as int, x.download_url@) {
                    let j = choose|j: int| 0 <= j < n && #[trigger] input[j].download_url@
                        == x.download_url@;
                    assert(input.take(n + 1)[j] == input[j]);
                }
                if url_seen(input.take(n + 1), n as int, x.download_url@) {
                    let j = choose|j: int| 0 <= j < n && #[trigger] input.take(n + 1)[j].download_url@
                        == x.download_url@;
                    assert(input.take(n + 1)[j] == input[j]);
                }
            }
            lemma_dedup_by_url(input.take(n + 1));
        }
        if !seen {
            kept.push(x);
        }
        n = n + 1;
        proof {
            assert(rest@ =~= input.skip(n as int));
            lemma_dedup_by_url(input.take(n as int));
            assert forall|url: Seq<char>| url_seen(input.take(n as int), n as int, url)
                <==> url_seen(input, n as int, url) by {
                if url_seen(input, n as int, url) {
                    let j = choose|j: int| 0 <= j < n && #[trigger] input[j].download_url@ == url;
                    assert(input.take(n as int)[j] == input[j]);
                }
                if url_seen(input.take(n as int), n as int, url) {
                    let j = choose|j: int| 0 <= j < n && #[trigger] input.take(
                        n as int,
                    )[j].download_url@ == url;
                    assert(input.take(n as int)[j] == input[j]);
                }
            }
        }
    }
    assert(input.take(n as int) =~= input);
    // Stable insertion sort by seeders, most first.
    let ghost deduped = kept@;
    let kept_total = kept.len();
    assert(deduped.len() == kept_total);
    let mut sorted: Vec<SearchResult> = Vec::new();
    let mut m: usize = 0;
    while kept.len() > 0
        invariant
            m + kept@.len() == deduped.len(),
            deduped.len() <= usize::MAX,
            kept@ == deduped.skip(m as int),
            sorted@ == sort_by_seeders(deduped.take(m as int)),
        decreases kept.len(),
    {
        let x = kept.remove(0);
        let ghost pre = deduped.take(m as int);
        assert(deduped.take(m + 1).drop_last() =~= pre);
        assert(deduped.take(m + 1).last() == x);
        let key: i32 = seeders_of(&x);
        let mut p: usize = 0;
        assert(sorted@.skip(0) =~= sorted@);
        while p < sorted.len() && seeders_of(&sorted[p]) >= key
            invariant
                p <= sorted.len(),
                key == seeders_key(x),
                count_at_least(sorted@, key as int) == p + count_at_least(
                    sorted@.skip(p as int),
                    key as int,
                ),
            decreases sorted.len() - p,
        {
            assert(sorted@.skip(p as int).drop_first() =~= sorted@.skip(p + 1));
            p = p + 1;
        }
        proof {
            if p < sorted.len() {
                assert(sorted@.skip(p as int)[0] == sorted@[p as int]);
            }
            assert(count_at_least(sorted@.skip(p as int), key as int) == 0);
        }
        sorted.insert(p, x);
        m = m + 1;
        assert(kept@ =~= deduped.skip(m as int));
    }
    assert(deduped.take(m as int) =~= deduped);
    *results = sorted;
}

} // verus!
