//! The model cache on disk: how paths are formed, how `file://` URLs map
//! to paths, and the protocol by which a model's files are downloaded.
//!
//! Nothing here touches the filesystem or the network. The download is a
//! state machine: it names the next action (probe a file, open a source,
//! read a chunk, ...) and the caller performs it and reports the outcome.

use vstd::prelude::*;
use vstd::utf8::*;

use crate::catalog::{FileSpec, FileSpecView};

verus! {

// ---------------------------------------------------------------------------
// Errors
// ---------------------------------------------------------------------------

/// Why a download failed.
#[derive(Debug)]
pub enum DownloadError {
    Cancelled,
    Http(u16, String),
    Network(String),
    Io(String),
}

/// Mathematical value of a [`DownloadError`].
pub ghost enum DownloadErrorView {
    Cancelled,
    Http(u16, Seq<char>),
    Network(Seq<char>),
    Io(Seq<char>),
}

impl View for DownloadError {
    type V = DownloadErrorView;

    open spec fn view(&self) -> DownloadErrorView {
        match self {
            DownloadError::Cancelled => DownloadErrorView::Cancelled,
            DownloadError::Http(s, m) => DownloadErrorView::Http(*s, m@),
            DownloadError::Network(m) => DownloadErrorView::Network(m@),
            DownloadError::Io(m) => DownloadErrorView::Io(m@),
        }
    }
}

impl DownloadError {
    /// A copy of this error.
    pub fn copy(&self) -> (e: DownloadError)
        ensures
            e@ == self@,
    {
        match self {
            DownloadError::Cancelled => DownloadError::Cancelled,
            DownloadError::Http(s, m) => DownloadError::Http(*s, m.clone()),
            DownloadError::Network(m) => DownloadError::Network(m.clone()),
            DownloadError::Io(m) => DownloadError::Io(m.clone()),
        }
    }
}

/// The decimal digit `d` (`d < 10`) as a character.
pub open spec fn digit_char(d: nat) -> char {
    if d == 0 { '0' } else if d == 1 { '1' } else if d == 2 { '2' } else if d == 3 { '3' }
    else if d == 4 { '4' } else if d == 5 { '5' } else if d == 6 { '6' } else if d == 7 { '7' }
    else if d == 8 { '8' } else { '9' }
}

/// The decimal representation of `n`, without leading zeros.
pub open spec fn decimal(n: nat) -> Seq<char>
    decreases n,
{
    if n < 10 {
        seq![digit_char(n)]
    } else {
        decimal(n / 10).push(digit_char(n % 10))
    }
}

fn digit_str(d: u64) -> (s: &'static str)
    requires
        d < 10,
    ensures
        s@ == seq![digit_char(d as nat)],
{
    proof {
        reveal_strlit("0");
        reveal_strlit("1");
        reveal_strlit("2");
        reveal_strlit("3");
        reveal_strlit("4");
        reveal_strlit("5");
        reveal_strlit("6");
        reveal_strlit("7");
        reveal_strlit("8");
        reveal_strlit("9");
    }
    if d == 0 { "0" } else if d == 1 { "1" } else if d == 2 { "2" } else if d == 3 { "3" }
    else if d == 4 { "4" } else if d == 5 { "5" } else if d == 6 { "6" } else if d == 7 { "7" }
    else if d == 8 { "8" } else { "9" }
}

/// Formats `n` in decimal.
pub fn decimal_string(n: u64) -> (s: String)
    ensures
        s@ == decimal(n as nat),
    decreases n,
{
    if n < 10 {
        String::from_str(digit_str(n))
    } else {
        decimal_string(n / 10).concat(digit_str(n % 10))
    }
}

/// The message of a download error.
pub open spec fn download_error_message(e: DownloadErrorView) -> Seq<char> {
    match e {
        DownloadErrorView::Cancelled => "download cancelled"@,
        DownloadErrorView::Http(s, m) => "http "@ + decimal(s as nat) + ": "@ + m,
        DownloadErrorView::Network(m) => "network: "@ + m,
        DownloadErrorView::Io(m) => "io: "@ + m,
    }
}

impl DownloadError {
    /// The human-readable message of this error.
    pub fn message(&self) -> (m: String)
        ensures
            m@ == download_error_message(self@),
    {
        match self {
            DownloadError::Cancelled => String::from_str("download cancelled"),
            DownloadError::Http(s, m) => String::from_str("http ").concat(
                decimal_string(*s as u64).as_str(),
            ).concat(": ").concat(m.as_str()),
            DownloadError::Network(m) => String::from_str("network: ").concat(m.as_str()),
            DownloadError::Io(m) => String::from_str("io: ").concat(m.as_str()),
        }
    }
}

// ---------------------------------------------------------------------------
// Paths
// ---------------------------------------------------------------------------

/// Whether two strings hold the same text.
pub fn text_eq(a: &str, b: &str) -> (r: bool)
    ensures
        r == (a@ == b@),
{
    let n = a.unicode_len();
    if n != b.unicode_len() {
        return false;
    }
    let mut i: usize = 0;
    while i < n
        invariant
            n == a@.len(),
            n == b@.len(),
            i <= n,
            forall|j: int| 0 <= j < i ==> a@[j] == b@[j],
        decreases n - i,
    {
        if a.get_char(i) != b.get_char(i) {
            return false;
        }
        i = i + 1;
    }
    assert(a@ =~= b@);
    true
}

/// The text `{:?}` gives for a path (`<Path as Debug>::fmt`): the path in
/// double quotes, with quotes, backslashes and characters that are not
/// printable escaped.
pub uninterp spec fn path_debug_text(p: Seq<char>) -> Seq<char>;

/// The text `{:?}` gives for a string (`<str as Debug>::fmt`): the string
/// in double quotes, with quotes, backslashes and characters that are not
/// printable escaped.
pub uninterp spec fn str_debug_text(s: Seq<char>) -> Seq<char>;

/// `<Path as Debug>::fmt`: the path formatted with `{:?}`.
#[verifier::external_body]
pub(crate) fn path_debug(p: &str) -> (r: String)
    ensures
        r@ == path_debug_text(p@),
{
    format!("{:?}", std::path::Path::new(p))
}

/// `<str as Debug>::fmt`: the string formatted with `{:?}`.
#[verifier::external_body]
pub(crate) fn str_debug(s: &str) -> (r: String)
    ensures
        r@ == str_debug_text(s@),
{
    format!("{:?}", s)
}

/// `child` inside directory `base`: the two joined by a `/`, which is not
/// doubled when `base` already ends in one. An absolute `child` (one that
/// starts with `/`) stands for itself, as with `Path::join`.
pub open spec fn join_path(base: Seq<char>, child: Seq<char>) -> Seq<char> {
    if base.len() == 0 || (child.len() > 0 && child[0] == '/') {
        child
    } else if base.last() == '/' {
        base + child
    } else {
        base + "/"@ + child
    }
}

/// Joins a directory and a name, as `join_path` says.
pub fn join(base: &str, child: &str) -> (p: String)
    ensures
        p@ == join_path(base@, child@),
{
    let n = base.unicode_len();
    if n == 0 || (child.unicode_len() > 0 && child.get_char(0) == '/') {
        String::from_str(child)
    } else if base.get_char(n - 1) == '/' {
        String::from_str(base).concat(child)
    } else {
        String::from_str(base).concat("/").concat(child)
    }
}

/// Where a file is written while it downloads: its final path with
/// `.part` appended, so that an interrupted download never leaves a
/// partial file under the final name.
pub open spec fn part_path(target: Seq<char>) -> Seq<char> {
    target + ".part"@
}

// ---------------------------------------------------------------------------
// file:// URLs
// ---------------------------------------------------------------------------

/// The value of an ASCII hexadecimal digit.
pub open spec fn hex_value(b: u8) -> Option<u8> {
    if 0x30 <= b <= 0x39 {
        Some((b - 0x30) as u8)
    } else if 0x61 <= b <= 0x66 {
        Some((b - 0x61 + 10) as u8)
    } else if 0x41 <= b <= 0x46 {
        Some((b - 0x41 + 10) as u8)
    } else {
        None
    }
}

fn hex_digit(b: u8) -> (r: Option<u8>)
    ensures
        r == hex_value(b),
{
    if 0x30 <= b && b <= 0x39 {
        Some(b - 0x30)
    } else if 0x61 <= b && b <= 0x66 {
        Some(b - 0x61 + 10)
    } else if 0x41 <= b && b <= 0x46 {
        Some(b - 0x41 + 10)
    } else {
        None
    }
}

/// A complete `%XY` escape (two hex digits) starts at position `i`.
pub open spec fn escape_at(b: Seq<u8>, i: int) -> bool {
    0 <= i && i + 2 < b.len() && b[i] == 0x25 && hex_value(b[i + 1]) is Some && hex_value(
        b[i + 2],
    ) is Some
}

/// The byte an escape at `i` stands for.
pub open spec fn escaped_byte(b: Seq<u8>, i: int) -> u8 {
    (hex_value(b[i + 1])->Some_0 * 16 + hex_value(b[i + 2])->Some_0) as u8
}

/// Percent-decoding of `b` from position `i`: each `%XY` becomes the byte
/// `0xXY`; every other byte, a malformed `%` included, stands for itself.
pub open spec fn percent_decoded_from(b: Seq<u8>, i: int) -> Seq<u8>
    decreases b.len() - i,
{
    if i < 0 || i >= b.len() {
        Seq::empty()
    } else if escape_at(b, i) {
        Seq::empty().push(escaped_byte(b, i)) + percent_decoded_from(b, i + 3)
    } else {
        Seq::empty().push(b[i]) + percent_decoded_from(b, i + 1)
    }
}

/// Percent-decoding of a whole byte string.
pub open spec fn percent_decoded(b: Seq<u8>) -> Seq<u8> {
    percent_decoded_from(b, 0)
}

/// The text of the error `String::from_utf8` reports for invalid bytes.
pub uninterp spec fn from_utf8_error_text(bytes: Seq<u8>) -> Seq<char>;

/// `String::from_utf8`: the bytes as a string when they are valid UTF-8,
/// and otherwise the text of the error (`FromUtf8Error` displayed).
#[verifier::external_body]
fn string_from_utf8(bytes: Vec<u8>) -> (r: Result<String, String>)
    ensures
        r is Ok <==> valid_utf8(bytes@),
        r matches Ok(s) ==> s@ == decode_utf8(bytes@),
        r matches Err(m) ==> m@ == from_utf8_error_text(bytes@),
{
    String::from_utf8(bytes).map_err(|e| e.to_string())
}

/// The error for a `file://` path whose decoded bytes are not UTF-8,
/// given the text of the UTF-8 error.
pub open spec fn utf8_path_error(detail: Seq<char>) -> DownloadErrorView {
    DownloadErrorView::Io("invalid utf-8 in file:// path: "@ + detail)
}

/// The error for a `file://` path whose decoded bytes are not UTF-8.
pub fn utf8_path_failure(detail: String) -> (e: DownloadError)
    ensures
        e@ == utf8_path_error(detail@),
{
    DownloadError::Io(String::from_str("invalid utf-8 in file:// path: ").concat(detail.as_str()))
}

/// The text a percent-encoded string stands for, or the error when the
/// decoded bytes are not valid UTF-8.
pub open spec fn percent_decode_result(s: Seq<char>) -> Result<Seq<char>, DownloadErrorView> {
    let d = percent_decoded(encode_utf8(s));
    if valid_utf8(d) {
        Ok(decode_utf8(d))
    } else {
        Err(utf8_path_error(from_utf8_error_text(d)))
    }
}

/// Decodes `%XY` escapes (RFC 3986) in the path part of a `file://` URL.
/// A `%` not followed by two hex digits passes through unchanged. Fails
/// with an I/O error when the decoded bytes are not UTF-8.
pub fn percent_decode(s: &str) -> (r: Result<String, DownloadError>)
    ensures
        match r {
            Ok(d) => percent_decode_result(s@) == Ok::<Seq<char>, DownloadErrorView>(d@),
            Err(e) => percent_decode_result(s@) == Err::<Seq<char>, DownloadErrorView>(e@),
        },
{
    let bytes = s.as_bytes();
    let ghost b = bytes@;
    let n = bytes.len();
    let mut out: Vec<u8> = Vec::new();
    let mut i: usize = 0;
    while i < n
        invariant
            n == b.len(),
            b == bytes@,
            i <= n,
            out@ + percent_decoded_from(b, i as int) == percent_decoded(b),
        decreases n - i,
    {
        let ghost before = out@;
        if bytes[i] == 0x25 && n >= 2 && i < n - 2 {
            let h1 = hex_digit(bytes[i + 1]);
            let h2 = hex_digit(bytes[i + 2]);
            match (h1, h2) {
                (Some(a), Some(c)) => {
                    let v: u8 = a * 16 + c;
                    assert(escape_at(b, i as int));
                    assert(v == escaped_byte(b, i as int));
                    out.push(v);
                    assert(before + percent_decoded_from(b, i as int) =~= out@
                        + percent_decoded_from(b, i + 3));
                    i = i + 3;
                    continue;
                },
                _ => {},
            }
        }
        assert(!escape_at(b, i as int));
        let x = bytes[i];
        out.push(x);
        assert(before + percent_decoded_from(b, i as int) =~= out@ + percent_decoded_from(
            b,
            i + 1,
        ));
        i = i + 1;
    }
    assert(out@ =~= percent_decoded(b));
    match string_from_utf8(out) {
        Ok(d) => Ok(d),
        Err(m) => Err(utf8_path_failure(m)),
    }
}

/// The path a `file://` URL's remainder (after `file://`) names on a
/// POSIX system: its percent-decoding.
pub fn file_url_to_path(s: &str) -> (r: Result<String, DownloadError>)
    ensures
        match r {
            Ok(p) => percent_decode_result(s@) == Ok::<Seq<char>, DownloadErrorView>(p@),
            Err(e) => percent_decode_result(s@) == Err::<Seq<char>, DownloadErrorView>(e@),
        },
{
    percent_decode(s)
}

/// An ASCII letter.
pub open spec fn is_ascii_letter(c: char) -> bool {
    ('a' <= c <= 'z') || ('A' <= c <= 'Z')
}

/// On Windows, `/C:/foo` names `C:/foo`: a `/` in front of a drive letter
/// and colon is dropped. Any other path is kept as it is.
pub open spec fn windows_path(d: Seq<char>) -> Seq<char> {
    if d.len() >= 3 && d[0] == '/' && is_ascii_letter(d[1]) && d[2] == ':' {
        d.skip(1)
    } else {
        d
    }
}

/// The path a `file://` URL's remainder names on Windows: its
/// percent-decoding, without the `/` in front of a drive letter.
pub fn file_url_to_path_windows(s: &str) -> (r: Result<String, DownloadError>)
    ensures
        match r {
            Ok(p) => percent_decode_result(s@) matches Ok(d) && p@ == windows_path(d),
            Err(e) => percent_decode_result(s@) == Err::<Seq<char>, DownloadErrorView>(e@),
        },
{
    let decoded = percent_decode(s)?;
    let n = decoded.as_str().unicode_len();
    if n >= 3 {
        let c0 = decoded.as_str().get_char(0);
        let c1 = decoded.as_str().get_char(1);
        let c2 = decoded.as_str().get_char(2);
        if c0 == '/' && (('a' <= c1 && c1 <= 'z') || ('A' <= c1 && c1 <= 'Z')) && c2 == ':' {
            let rest = String::from_str(decoded.as_str().substring_char(1, n));
            assert(rest@ =~= decoded@.skip(1));
            return Ok(rest);
        }
    }
    Ok(decoded)
}

// ---------------------------------------------------------------------------
// The download protocol
// ---------------------------------------------------------------------------

/// How `file://` URLs map to paths on the host.
#[derive(Debug, Clone, Copy, PartialEq, Eq, Structural)]
pub enum PathStyle {
    Posix,
    Windows,
}

/// The path a `file://` URL's remainder names, in the given style.
pub open spec fn local_path(style: PathStyle, rest: Seq<char>) -> Result<
    Seq<char>,
    DownloadErrorView,
> {
    match percent_decode_result(rest) {
        Ok(d) => Ok(
            match style {
                PathStyle::Posix => d,
                PathStyle::Windows => windows_path(d),
            },
        ),
        Err(e) => Err(e),
    }
}

/// The scheme prefix of local sources.
pub open spec fn file_scheme() -> Seq<char> {
    seq!['f', 'i', 'l', 'e', ':', '/', '/']
}

/// A URL naming a local file.
pub open spec fn is_file_url(u: Seq<char>) -> bool {
    u.len() >= 7 && u.take(7) == file_scheme()
}

/// Where a download stands.
#[derive(Debug, Clone, Copy, PartialEq, Eq, Structural)]
pub enum Phase {
    /// About to check for cancellation before touching anything.
    Start,
    CreatingDir,
    /// Probing whether the current file is already in the cache.
    Probing,
    /// About to check for cancellation before fetching the current file.
    CheckBeforeFetch,
    StatingSource,
    OpeningSource,
    OpeningRemote,
    CreatingTemp,
    /// About to check for cancellation before the next chunk.
    CheckInLoop,
    Reading,
    Writing(usize),
    Reporting,
    Flushing,
    Renaming,
    /// Removing the partial file before failing.
    CleaningUp,
    Failed,
    Succeeded,
}

/// What the caller is asked to do next.
#[derive(Debug)]
pub enum DownloadAction {
    /// Report whether cancellation was requested.
    CheckCancel,
    /// Create the directory and its parents.
    CreateDir(String),
    /// Report the size of the file at the path if it is a regular file.
    Probe(String),
    /// Report the size of the local source if it is a regular file.
    StatSource(String),
    /// Open the local source for reading.
    OpenSource(String),
    /// Request the URL; report whether a body came back to read, or the error.
    OpenRemote(String),
    /// Create the partial file for writing.
    CreateTemp(String),
    /// Read the next chunk of at most 64 KiB from the source.
    ReadChunk,
    /// Write the chunk just read (this many bytes) to the partial file.
    WriteChunk(usize),
    /// Report progress of the whole model: bytes received so far (those
    /// of the files already fetched and of the current one, at most the
    /// model's size), and the model's size.
    Progress(u64, u64),
    /// Flush and close the partial file.
    Flush,
    /// Rename the partial file (first) to its final name (second).
    Rename(String, String),
    /// Remove the partial file, ignoring failure.
    RemoveTemp(String),
    /// The download is over, with this outcome.
    Finish(Result<(), DownloadError>),
}

/// What the caller reports after performing an action.
#[derive(Debug)]
pub enum DownloadEvent {
    /// Whether cancellation was requested (after `CheckCancel`).
    Cancel(bool),
    /// The outcome of a filesystem operation (after `CreateDir`,
    /// `OpenSource`, `CreateTemp`, `WriteChunk`, `Flush`, `Rename`).
    Done(Result<(), String>),
    /// The size of the probed path if it is a regular file (after `Probe`).
    Probed(Option<u64>),
    /// The size of the local source if it is a regular file, or the error
    /// reading its metadata (after `StatSource`).
    Stat(Result<Option<u64>, String>),
    /// Whether the request was answered with a body to read, or the error
    /// (after `OpenRemote`).
    Opened(Result<(), DownloadError>),
    /// The number of bytes read, 0 at the end, or the error (after `ReadChunk`).
    Read(Result<usize, String>),
    /// The action was performed (after `Progress`, `RemoveTemp`).
    Ack,
}

/// Mathematical value of a [`DownloadAction`].
pub ghost enum ActionView {
    CheckCancel,
    CreateDir(Seq<char>),
    Probe(Seq<char>),
    StatSource(Seq<char>),
    OpenSource(Seq<char>),
    OpenRemote(Seq<char>),
    CreateTemp(Seq<char>),
    ReadChunk,
    WriteChunk(usize),
    Progress(u64, u64),
    Flush,
    Rename(Seq<char>, Seq<char>),
    RemoveTemp(Seq<char>),
    Finish(Result<(), DownloadErrorView>),
}

/// Mathematical value of a [`DownloadEvent`].
pub ghost enum EventView {
    Cancel(bool),
    Done(Result<(), Seq<char>>),
    Probed(Option<u64>),
    Stat(Result<Option<u64>, Seq<char>>),
    Opened(Result<(), DownloadErrorView>),
    Read(Result<usize, Seq<char>>),
    Ack,
}

impl View for DownloadAction {
    type V = ActionView;

    open spec fn view(&self) -> ActionView {
        match self {
            DownloadAction::CheckCancel => ActionView::CheckCancel,
            DownloadAction::CreateDir(p) => ActionView::CreateDir(p@),
            DownloadAction::Probe(p) => ActionView::Probe(p@),
            DownloadAction::StatSource(p) => ActionView::StatSource(p@),
            DownloadAction::OpenSource(p) => ActionView::OpenSource(p@),
            DownloadAction::OpenRemote(u) => ActionView::OpenRemote(u@),
            DownloadAction::CreateTemp(p) => ActionView::CreateTemp(p@),
            DownloadAction::ReadChunk => ActionView::ReadChunk,
            DownloadAction::WriteChunk(n) => ActionView::WriteChunk(*n),
            DownloadAction::Progress(r, t) => ActionView::Progress(*r, *t),
            DownloadAction::Flush => ActionView::Flush,
            DownloadAction::Rename(a, b) => ActionView::Rename(a@, b@),
            DownloadAction::RemoveTemp(p) => ActionView::RemoveTemp(p@),
            DownloadAction::Finish(r) => ActionView::Finish(
                match r {
                    Ok(()) => Ok(()),
                    Err(e) => Err(e@),
                },
            ),
        }
    }
}

impl View for DownloadEvent {
    type V = EventView;

    open spec fn view(&self) -> EventView {
        match self {
            DownloadEvent::Cancel(b) => EventView::Cancel(*b),
            DownloadEvent::Done(r) => EventView::Done(
                match r {
                    Ok(()) => Ok(()),
                    Err(m) => Err(m@),
                },
            ),
            DownloadEvent::Probed(o) => EventView::Probed(*o),
            DownloadEvent::Stat(r) => EventView::Stat(
                match r {
                    Ok(o) => Ok(*o),
                    Err(m) => Err(m@),
                },
            ),
            DownloadEvent::Opened(r) => EventView::Opened(
                match r {
                    Ok(()) => Ok(()),
                    Err(e) => Err(e@),
                },
            ),
            DownloadEvent::Read(r) => EventView::Read(
                match r {
                    Ok(n) => Ok(*n),
                    Err(m) => Err(m@),
                },
            ),
            DownloadEvent::Ack => EventView::Ack,
        }
    }
}

/// The download of a model's files into a directory of the cache.
pub struct Download {
    files: Vec<FileSpec>,
    dest: String,
    style: PathStyle,
    size: u64,
    committed: u64,
    received: u64,
    source: String,
    cursor: Cursor,
}

/// Which file a download is at, what it is doing, and why it fails.
struct Cursor {
    index: usize,
    phase: Phase,
    error: Option<DownloadError>,
}

/// Mathematical value of a [`Download`].
#[verifier::ext_equal]
pub ghost struct DownloadState {
    /// The files to fetch, in order.
    pub files: Seq<FileSpecView>,
    /// The model's directory in the cache.
    pub dest: Seq<char>,
    pub style: PathStyle,
    /// The file being handled.
    pub index: nat,
    /// The declared size of the whole model, which progress is reported against.
    pub size: u64,
    /// Bytes of the files fetched and put in place so far.
    pub committed: u64,
    /// Bytes of the current file written so far.
    pub received: u64,
    /// The local path of the current file's source, if it is local.
    pub source: Seq<char>,
    /// Why the download is failing, once it is.
    pub error: Option<DownloadErrorView>,
    pub phase: Phase,
}

impl View for Download {
    type V = DownloadState;

    closed spec fn view(&self) -> DownloadState {
        DownloadState {
            files: self.files@.map_values(|f: FileSpec| f@),
            dest: self.dest@,
            style: self.style,
            index: self.cursor.index as nat,
            size: self.size,
            committed: self.committed,
            received: self.received,
            source: self.source@,
            error: match self.cursor.error {
                Some(e) => Some(e@),
                None => None,
            },
            phase: self.cursor.phase,
        }
    }
}

/// Where file `i` ends up.
pub open spec fn target_path(s: DownloadState) -> Seq<char> {
    join_path(s.dest, s.files[s.index as int].filename)
}

/// `a + b`, saturating at `u64::MAX`.
pub open spec fn sat_add(a: u64, b: u64) -> u64 {
    if a + b <= u64::MAX {
        (a + b) as u64
    } else {
        u64::MAX
    }
}

/// The bytes of the model received so far: those of the files already
/// fetched and of the current one, at most the model's size.
pub open spec fn model_progress(s: DownloadState) -> u64 {
    let r = sat_add(s.committed, s.received);
    if r <= s.size {
        r
    } else {
        s.size
    }
}

/// The state's invariant: the file index is in range while files are
/// handled, and no bytes of a file are counted before it is transferred.
pub open spec fn download_wf(s: DownloadState) -> bool {
    &&& s.index <= s.files.len()
    &&& (s.phase == Phase::Start || s.phase == Phase::CreatingDir) ==> s.index == 0
    &&& (s.phase != Phase::Start && s.phase != Phase::CreatingDir && s.phase != Phase::Failed
        && s.phase != Phase::Succeeded) ==> s.index < s.files.len()
    &&& s.phase == Phase::Succeeded ==> s.index == s.files.len()
    &&& (s.phase == Phase::Failed || s.phase == Phase::CleaningUp) <==> s.error is Some
    &&& (s.phase == Phase::Start || s.phase == Phase::CreatingDir || s.phase == Phase::Probing
        || s.phase == Phase::CheckBeforeFetch || s.phase == Phase::StatingSource || s.phase
        == Phase::OpeningSource || s.phase == Phase::OpeningRemote || s.phase
        == Phase::CreatingTemp || s.phase == Phase::Succeeded) ==> s.received == 0
}

/// A fresh download of `files` into `dest`.
pub open spec fn download_start(
    files: Seq<FileSpecView>,
    dest: Seq<char>,
    size: u64,
    style: PathStyle,
) -> DownloadState {
    DownloadState {
        files,
        dest,
        style,
        index: 0,
        size,
        committed: 0,
        received: 0,
        source: Seq::empty(),
        error: None,
        phase: Phase::Start,
    }
}

/// The action the caller is asked to perform in state `s`.
pub open spec fn pending_action(s: DownloadState) -> ActionView {
    match s.phase {
        Phase::Start => ActionView::CheckCancel,
        Phase::CreatingDir => ActionView::CreateDir(s.dest),
        Phase::Probing => ActionView::Probe(target_path(s)),
        Phase::CheckBeforeFetch => ActionView::CheckCancel,
        Phase::StatingSource => ActionView::StatSource(s.source),
        Phase::OpeningSource => ActionView::OpenSource(s.source),
        Phase::OpeningRemote => ActionView::OpenRemote(s.files[s.index as int].url),
        Phase::CreatingTemp => ActionView::CreateTemp(part_path(target_path(s))),
        Phase::CheckInLoop => ActionView::CheckCancel,
        Phase::Reading => ActionView::ReadChunk,
        Phase::Writing(n) => ActionView::WriteChunk(n),
        Phase::Reporting => ActionView::Progress(model_progress(s), s.size),
        Phase::Flushing => ActionView::Flush,
        Phase::Renaming => ActionView::Rename(part_path(target_path(s)), target_path(s)),
        Phase::CleaningUp => ActionView::RemoveTemp(part_path(target_path(s))),
        Phase::Failed => ActionView::Finish(Err(s.error->Some_0)),
        Phase::Succeeded => ActionView::Finish(Ok(())),
    }
}

/// Moves on to file `i` (or to success past the last file).
pub open spec fn go_to_file(s: DownloadState, i: nat) -> DownloadState {
    if i >= s.files.len() {
        DownloadState { index: i, phase: Phase::Succeeded, ..s }
    } else {
        DownloadState { index: i, phase: Phase::Probing, ..s }
    }
}

/// Fails with `e`, without a partial file to remove.
pub open spec fn fail(s: DownloadState, e: DownloadErrorView) -> DownloadState {
    DownloadState { error: Some(e), phase: Phase::Failed, ..s }
}

/// Fails with `e` once the partial file is removed.
pub open spec fn clean_up(s: DownloadState, e: DownloadErrorView) -> DownloadState {
    DownloadState { error: Some(e), phase: Phase::CleaningUp, ..s }
}

/// The message for a local source that is not a regular file.
pub open spec fn not_a_file_message(path: Seq<char>) -> Seq<char> {
    path_debug_text(path) + " is not a regular file"@
}

/// Starts fetching the current file: from its local path for a `file://`
/// URL, from the network otherwise.
pub open spec fn start_fetch(s: DownloadState) -> DownloadState {
    let url = s.files[s.index as int].url;
    let s0 = DownloadState { received: 0, ..s };
    if is_file_url(url) {
        match local_path(s.style, url.skip(7)) {
            Ok(p) => DownloadState { source: p, phase: Phase::StatingSource, ..s0 },
            Err(e) => fail(s0, e),
        }
    } else {
        DownloadState { phase: Phase::OpeningRemote, ..s0 }
    }
}

/// The next state after the caller reports `e` in state `s`. An event that
/// does not answer the pending action leaves the state as it is, so the
/// same action is asked for again.
pub open spec fn transition(s: DownloadState, e: EventView) -> DownloadState {
    match (s.phase, e) {
        (Phase::Start, EventView::Cancel(c)) => if c {
            fail(s, DownloadErrorView::Cancelled)
        } else {
            DownloadState { phase: Phase::CreatingDir, ..s }
        },
        (Phase::CreatingDir, EventView::Done(r)) => match r {
            Ok(()) => go_to_file(s, 0),
            Err(m) => fail(s, DownloadErrorView::Io(m)),
        },
        (Phase::Probing, EventView::Probed(size)) => match size {
            Some(len) => if len > 0 {
                go_to_file(s, s.index + 1)
            } else {
                DownloadState { phase: Phase::CheckBeforeFetch, ..s }
            },
            None => DownloadState { phase: Phase::CheckBeforeFetch, ..s },
        },
        (Phase::CheckBeforeFetch, EventView::Cancel(c)) => if c {
            fail(s, DownloadErrorView::Cancelled)
        } else {
            start_fetch(s)
        },
        (Phase::StatingSource, EventView::Stat(r)) => match r {
            Ok(Some(_)) => DownloadState { phase: Phase::OpeningSource, ..s },
            Ok(None) => fail(s, DownloadErrorView::Io(not_a_file_message(s.source))),
            Err(m) => fail(s, DownloadErrorView::Io(m)),
        },
        (Phase::OpeningSource, EventView::Done(r)) => match r {
            Ok(()) => DownloadState { phase: Phase::CreatingTemp, ..s },
            Err(m) => fail(s, DownloadErrorView::Io(m)),
        },
        (Phase::OpeningRemote, EventView::Opened(r)) => match r {
            Ok(()) => DownloadState { phase: Phase::CreatingTemp, ..s },
            Err(err) => fail(s, err),
        },
        (Phase::CreatingTemp, EventView::Done(r)) => match r {
            Ok(()) => DownloadState { phase: Phase::CheckInLoop, ..s },
            Err(m) => clean_up(s, DownloadErrorView::Io(m)),
        },
        (Phase::CheckInLoop, EventView::Cancel(c)) => if c {
            clean_up(s, DownloadErrorView::Cancelled)
        } else {
            DownloadState { phase: Phase::Reading, ..s }
        },
        (Phase::Reading, EventView::Read(r)) => match r {
            Ok(n) => if n == 0 {
                DownloadState { phase: Phase::Flushing, ..s }
            } else {
                DownloadState { phase: Phase::Writing(n), ..s }
            },
            Err(m) => clean_up(s, DownloadErrorView::Network(m)),
        },
        (Phase::Writing(n), EventView::Done(r)) => match r {
            Ok(()) => DownloadState {
                received: sat_add(s.received, n as u64),
                phase: Phase::Reporting,
                ..s
            },
            Err(m) => clean_up(s, DownloadErrorView::Io(m)),
        },
        (Phase::Reporting, EventView::Ack) => DownloadState { phase: Phase::CheckInLoop, ..s },
        (Phase::Flushing, EventView::Done(r)) => match r {
            Ok(()) => DownloadState { phase: Phase::Renaming, ..s },
            Err(m) => clean_up(s, DownloadErrorView::Io(m)),
        },
        (Phase::Renaming, EventView::Done(r)) => match r {
            Ok(()) => go_to_file(
                DownloadState { committed: sat_add(s.committed, s.received), received: 0, ..s },
                s.index + 1,
            ),
            Err(m) => clean_up(s, DownloadErrorView::Io(m)),
        },
        (Phase::CleaningUp, EventView::Ack) => DownloadState { phase: Phase::Failed, ..s },
        _ => s,
    }
}

impl Download {
    /// The state's invariant holds of every download.
    #[verifier::type_invariant]
    spec fn well_formed(self) -> bool {
        download_wf(self@)
    }

    /// A download of `files` into the directory `dest`, for a model of
    /// `size` bytes, whose `file://` URLs map to paths in the given style.
    pub fn new(files: Vec<FileSpec>, dest: String, size: u64, style: PathStyle) -> (d: Download)
        ensures
            d@ == download_start(files@.map_values(|f: FileSpec| f@), dest@, size, style),
    {
        let d = Download {
            files,
            dest,
            style,
            size,
            committed: 0,
            received: 0,
            source: String::new(),
            cursor: Cursor { index: 0, phase: Phase::Start, error: None },
        };
        assert(d@ =~= download_start(d.files@.map_values(|f: FileSpec| f@), d.dest@, size, style));
        d
    }

    /// The directory the files go to.
    pub fn dest(&self) -> (p: &String)
        ensures
            p@ == self@.dest,
    {
        &self.dest
    }

    /// The bytes of the model received so far, at most its size.
    fn progress(&self) -> (r: u64)
        ensures
            r == model_progress(self@),
    {
        let r = self.committed.saturating_add(self.received);
        if r <= self.size {
            r
        } else {
            self.size
        }
    }

    fn target(&self) -> (p: String)
        requires
            self.cursor.index < self.files@.len(),
        ensures
            p@ == target_path(self@),
    {
        join(self.dest.as_str(), self.files[self.cursor.index].filename.as_str())
    }

    /// The action the caller is asked to perform now.
    pub fn next_action(&self) -> (a: DownloadAction)
        ensures
            a@ == pending_action(self@),
            download_wf(self@),
    {
        proof {
            use_type_invariant(self);
        }
        match self.cursor.phase {
            Phase::Start => DownloadAction::CheckCancel,
            Phase::CreatingDir => DownloadAction::CreateDir(self.dest.clone()),
            Phase::Probing => DownloadAction::Probe(self.target()),
            Phase::CheckBeforeFetch => DownloadAction::CheckCancel,
            Phase::StatingSource => DownloadAction::StatSource(self.source.clone()),
            Phase::OpeningSource => DownloadAction::OpenSource(self.source.clone()),
            Phase::OpeningRemote => DownloadAction::OpenRemote(
                self.files[self.cursor.index].url.clone(),
            ),
            Phase::CreatingTemp => DownloadAction::CreateTemp(self.target().concat(".part")),
            Phase::CheckInLoop => DownloadAction::CheckCancel,
            Phase::Reading => DownloadAction::ReadChunk,
            Phase::Writing(n) => DownloadAction::WriteChunk(n),
            Phase::Reporting => DownloadAction::Progress(self.progress(), self.size),
            Phase::Flushing => DownloadAction::Flush,
            Phase::Renaming => {
                let t = self.target();
                let part = t.clone().concat(".part");
                DownloadAction::Rename(part, t)
            },
            Phase::CleaningUp => DownloadAction::RemoveTemp(self.target().concat(".part")),
            Phase::Failed => match &self.cursor.error {
                Some(e) => DownloadAction::Finish(Err(e.copy())),
                None => DownloadAction::Finish(Ok(())),
            },
            Phase::Succeeded => DownloadAction::Finish(Ok(())),
        }
    }
}

/// Decides `is_file_url`.
pub fn has_file_scheme(url: &str) -> (r: bool)
    ensures
        r == is_file_url(url@),
{
    let n = url.unicode_len();
    if n < 7 {
        return false;
    }
    let ok = url.get_char(0) == 'f' && url.get_char(1) == 'i' && url.get_char(2) == 'l'
        && url.get_char(3) == 'e' && url.get_char(4) == ':' && url.get_char(5) == '/'
        && url.get_char(6) == '/';
    proof {
        if ok {
            assert(url@.take(7) =~= file_scheme());
        } else if url@.take(7) == file_scheme() {
            assert(url@.take(7)[0] == url@[0]);
            assert(url@.take(7)[1] == url@[1]);
            assert(url@.take(7)[2] == url@[2]);
            assert(url@.take(7)[3] == url@[3]);
            assert(url@.take(7)[4] == url@[4]);
            assert(url@.take(7)[5] == url@[5]);
            assert(url@.take(7)[6] == url@[6]);
        }
    }
    ok
}

/// The path named by the remainder of a `file://` URL, in the given style.
pub fn resolve_local_path(style: PathStyle, rest: &str) -> (r: Result<String, DownloadError>)
    ensures
        match r {
            Ok(p) => local_path(style, rest@) == Ok::<Seq<char>, DownloadErrorView>(p@),
            Err(e) => local_path(style, rest@) == Err::<Seq<char>, DownloadErrorView>(e@),
        },
{
    match style {
        PathStyle::Posix => file_url_to_path(rest),
        PathStyle::Windows => file_url_to_path_windows(rest),
    }
}

impl Download {
    fn set_failed(&mut self, e: DownloadError)
        requires
            download_wf(fail(old(self)@, e@)),
        ensures
            final(self)@ == fail(old(self)@, e@),
    {
        let index = self.cursor.index;
        self.cursor = Cursor { index, phase: Phase::Failed, error: Some(e) };
        proof {
            assert(final(self)@ =~= fail(old(self)@, e@));
        }
    }

    fn set_cleanup(&mut self, e: DownloadError)
        requires
            download_wf(clean_up(old(self)@, e@)),
        ensures
            final(self)@ == clean_up(old(self)@, e@),
    {
        let index = self.cursor.index;
        self.cursor = Cursor { index, phase: Phase::CleaningUp, error: Some(e) };
        proof {
            assert(final(self)@ =~= clean_up(old(self)@, e@));
        }
    }

    fn set_phase(&mut self, p: Phase)
        requires
            old(self)@.error is None,
            download_wf(DownloadState { phase: p, ..old(self)@ }),
        ensures
            final(self)@ == (DownloadState { phase: p, ..old(self)@ }),
    {
        let index = self.cursor.index;
        self.cursor = Cursor { index, phase: p, error: None };
        proof {
            assert(final(self)@ =~= (DownloadState { phase: p, ..old(self)@ }));
        }
    }

    fn finish_cleanup(&mut self)
        requires
            old(self)@.phase == Phase::CleaningUp,
            download_wf(old(self)@),
        ensures
            final(self)@ == (DownloadState { phase: Phase::Failed, ..old(self)@ }),
    {
        let index = self.cursor.index;
        let error = match &self.cursor.error {
            Some(e) => Some(e.copy()),
            None => None,
        };
        self.cursor = Cursor { index, phase: Phase::Failed, error };
        proof {
            assert(final(self)@ =~= (DownloadState { phase: Phase::Failed, ..old(self)@ }));
        }
    }

    fn go_to(&mut self, i: usize)
        requires
            i <= old(self).files@.len(),
            old(self)@.error is None,
            old(self)@.received == 0,
        ensures
            final(self)@ == go_to_file(old(self)@, i as nat),
    {
        let phase = if i >= self.files.len() {
            Phase::Succeeded
        } else {
            Phase::Probing
        };
        self.cursor = Cursor { index: i, phase, error: None };
        proof {
            assert(final(self)@ =~= go_to_file(old(self)@, i as nat));
        }
    }

    fn begin_fetch(&mut self)
        requires
            download_wf(old(self)@),
            old(self)@.phase == Phase::CheckBeforeFetch,
        ensures
            final(self)@ == start_fetch(old(self)@),
    {
        self.received = 0;
        let ghost s0 = self@;
        assert(s0 =~= DownloadState { received: 0, ..old(self)@ });
        let url: &str = self.files[self.cursor.index].url.as_str();
        if has_file_scheme(url) {
            let n = url.unicode_len();
            let rest = url.substring_char(7, n);
            assert(rest@ == url@.skip(7));
            match resolve_local_path(self.style, rest) {
                Ok(p) => {
                    self.source = p;
                    self.set_phase(Phase::StatingSource);
                    proof {
                        assert(final(self)@ =~= start_fetch(old(self)@));
                    }
                },
                Err(e) => {
                    self.set_failed(e);
                },
            }
        } else {
            self.set_phase(Phase::OpeningRemote);
        }
    }

    /// Takes the outcome of the pending action and moves on.
    pub fn advance(&mut self, event: DownloadEvent)
        ensures
            final(self)@ == transition(old(self)@, event@),
    {
        proof {
            use_type_invariant(&*self);
            lemma_transition_wf(self@, event@);
        }
        match (self.cursor.phase, event) {
            (Phase::Start, DownloadEvent::Cancel(c)) => {
                if c {
                    self.set_failed(DownloadError::Cancelled);
                } else {
                    self.set_phase(Phase::CreatingDir);
                }
            },
            (Phase::CreatingDir, DownloadEvent::Done(r)) => match r {
                Ok(()) => self.go_to(0),
                Err(m) => self.set_failed(DownloadError::Io(m)),
            },
            (Phase::Probing, DownloadEvent::Probed(size)) => {
                let present = match size {
                    Some(len) => len > 0,
                    None => false,
                };
                if present {
                    let count = self.files.len();
                    assert(self.cursor.index < count);
                    let next = self.cursor.index + 1;
                    self.go_to(next);
                } else {
                    self.set_phase(Phase::CheckBeforeFetch);
                }
            },
            (Phase::CheckBeforeFetch, DownloadEvent::Cancel(c)) => {
                if c {
                    self.set_failed(DownloadError::Cancelled);
                } else {
                    self.begin_fetch();
                }
            },
            (Phase::StatingSource, DownloadEvent::Stat(r)) => match r {
                Ok(Some(_)) => {
                    self.set_phase(Phase::OpeningSource);
                },
                Ok(None) => {
                    let m = path_debug(self.source.as_str()).concat(" is not a regular file");
                    self.set_failed(DownloadError::Io(m));
                },
                Err(m) => self.set_failed(DownloadError::Io(m)),
            },
            (Phase::OpeningSource, DownloadEvent::Done(r)) => match r {
                Ok(()) => self.set_phase(Phase::CreatingTemp),
                Err(m) => self.set_failed(DownloadError::Io(m)),
            },
            (Phase::OpeningRemote, DownloadEvent::Opened(r)) => match r {
                Ok(()) => {
                    self.set_phase(Phase::CreatingTemp);
                },
                Err(err) => self.set_failed(err),
            },
            (Phase::CreatingTemp, DownloadEvent::Done(r)) => match r {
                Ok(()) => self.set_phase(Phase::CheckInLoop),
                Err(m) => self.set_cleanup(DownloadError::Io(m)),
            },
            (Phase::CheckInLoop, DownloadEvent::Cancel(c)) => {
                if c {
                    self.set_cleanup(DownloadError::Cancelled);
                } else {
                    self.set_phase(Phase::Reading);
                }
            },
            (Phase::Reading, DownloadEvent::Read(r)) => match r {
                Ok(n) => {
                    if n == 0 {
                        self.set_phase(Phase::Flushing);
                    } else {
                        self.set_phase(Phase::Writing(n));
                    }
                },
                Err(m) => self.set_cleanup(DownloadError::Network(m)),
            },
            (Phase::Writing(n), DownloadEvent::Done(r)) => match r {
                Ok(()) => {
                    self.received = self.received.saturating_add(n as u64);
                    self.set_phase(Phase::Reporting);
                },
                Err(m) => self.set_cleanup(DownloadError::Io(m)),
            },
            (Phase::Reporting, DownloadEvent::Ack) => self.set_phase(Phase::CheckInLoop),
            (Phase::Flushing, DownloadEvent::Done(r)) => match r {
                Ok(()) => self.set_phase(Phase::Renaming),
                Err(m) => self.set_cleanup(DownloadError::Io(m)),
            },
            (Phase::Renaming, DownloadEvent::Done(r)) => match r {
                Ok(()) => {
                    self.committed = self.committed.saturating_add(self.received);
                    self.received = 0;
                    let count = self.files.len();
                    assert(self.cursor.index < count);
                    let next = self.cursor.index + 1;
                    self.go_to(next);
                },
                Err(m) => self.set_cleanup(DownloadError::Io(m)),
            },
            (Phase::CleaningUp, DownloadEvent::Ack) => self.finish_cleanup(),
            _ => {},
        }
    }
}

/// Every transition keeps the state's invariant.
pub proof fn lemma_transition_wf(s: DownloadState, e: EventView)
    requires
        download_wf(s),
    ensures
        download_wf(transition(s, e)),
{
}

// ---------------------------------------------------------------------------
// Laws of the download protocol
// ---------------------------------------------------------------------------

/// A download cancelled before it starts fails with `Cancelled` at once:
/// the only action it asked for was the cancellation check, so nothing
/// was created or written.
pub proof fn lemma_cancel_before_start(
    files: Seq<FileSpecView>,
    dest: Seq<char>,
    size: u64,
    style: PathStyle,
)
    ensures
        pending_action(download_start(files, dest, size, style)) == ActionView::CheckCancel,
        pending_action(transition(download_start(files, dest, size, style), EventView::Cancel(true)))
            == ActionView::Finish(Err(DownloadErrorView::Cancelled)),
{
}

/// A file already in the cache (a regular file of non-zero size) is not
/// fetched again: the download moves straight on to the next file.
pub proof fn lemma_present_file_skipped(s: DownloadState, len: u64)
    requires
        download_wf(s),
        s.phase == Phase::Probing,
        len > 0,
    ensures
        transition(s, EventView::Probed(Some(len))).index == s.index + 1,
        transition(s, EventView::Probed(Some(len))).phase == (if s.index + 1 < s.files.len() {
            Phase::Probing
        } else {
            Phase::Succeeded
        }),
{
}

/// Once the partial file exists, no event ends the download without first
/// asking for the partial file to be removed.
pub proof fn lemma_partial_file_removed_before_failing(s: DownloadState, e: EventView)
    requires
        download_wf(s),
        s.phase == Phase::CreatingTemp || s.phase == Phase::CheckInLoop || s.phase
            == Phase::Reading || s.phase is Writing || s.phase == Phase::Reporting || s.phase
            == Phase::Flushing || s.phase == Phase::Renaming,
    ensures
        transition(s, e).phase != Phase::Failed,
        transition(s, e).phase == Phase::CleaningUp ==> pending_action(transition(s, e))
            == ActionView::RemoveTemp(part_path(target_path(s))),
{
}

/// Progress never goes backwards and is always reported against the
/// model's size: whatever the caller reports, the bytes of the model
/// received so far never decrease, never exceed the size, and the size
/// never changes.
pub proof fn lemma_progress_monotonic(s: DownloadState, e: EventView)
    requires
        download_wf(s),
    ensures
        model_progress(transition(s, e)) >= model_progress(s),
        model_progress(transition(s, e)) <= transition(s, e).size,
        transition(s, e).size == s.size,
{
}

/// A download reports success only when it has handled every file.
pub proof fn lemma_success_covers_all_files(s: DownloadState)
    requires
        download_wf(s),
        pending_action(s) == ActionView::Finish(Ok(())),
    ensures
        s.index == s.files.len(),
        s.phase == Phase::Succeeded,
{
}

/// A file is fetched only after a probe found it missing and a check found
/// no cancellation: the fetch of file `i` starts only from the check that
/// follows its probe.
pub proof fn lemma_fetch_only_after_checks(s: DownloadState, e: EventView)
    requires
        download_wf(s),
        s.phase != Phase::StatingSource && s.phase != Phase::OpeningRemote,
        transition(s, e).phase == Phase::StatingSource || transition(s, e).phase
            == Phase::OpeningRemote,
    ensures
        s.phase == Phase::CheckBeforeFetch,
        e == EventView::Cancel(false),
{
}

/// The download moves past a file only once that file is in place: either
/// a probe found it present, or its partial file was renamed to its name.
pub proof fn lemma_files_advance_only_when_in_place(s: DownloadState, e: EventView)
    requires
        download_wf(s),
        transition(s, e).index != s.index,
    ensures
        transition(s, e).index == s.index + 1,
        ({
            ||| s.phase == Phase::Probing && (e matches EventView::Probed(Some(len)) && len > 0)
            ||| s.phase == Phase::Renaming && (e matches EventView::Done(r) && r is Ok)
        }),
{
}

/// Cancellation is polled before every chunk: a chunk is read only right
/// after a cancellation check that found none.
pub proof fn lemma_read_only_after_cancel_check(s: DownloadState, e: EventView)
    requires
        download_wf(s),
        s.phase != Phase::Reading,
        transition(s, e).phase == Phase::Reading,
    ensures
        s.phase == Phase::CheckInLoop,
        e == EventView::Cancel(false),
{
}


// ---------------------------------------------------------------------------
// A download against a model of the cache
// ---------------------------------------------------------------------------

/// A model of a file system: its regular files (path to size) and its
/// directories.
pub ghost struct FileSystem {
    pub files: Map<Seq<char>, nat>,
    pub dirs: Set<Seq<char>>,
}

/// Where file `j` of the download ends up.
pub open spec fn file_target(s: DownloadState, j: int) -> Seq<char> {
    join_path(s.dest, s.files[j].filename)
}

/// The caller performed the pending action faithfully on a file system
/// that was `fs` before and `fs2` after: a successful creation of the
/// directory creates it; a probe reports a file only as it is; a
/// successful creation, write or rename of the partial file does what it
/// says; a failed one may leave anything behind (the download then removes
/// the partial file and fails); every other action leaves the file system
/// as it is.
pub open spec fn faithful(s: DownloadState, fs: FileSystem, e: EventView, fs2: FileSystem) -> bool {
    match pending_action(s) {
        ActionView::CreateDir(d) => match e {
            EventView::Done(Ok(())) => fs2.files == fs.files && fs2.dirs == fs.dirs.insert(d),
            EventView::Done(Err(_)) => fs2.files == fs.files,
            _ => fs2 == fs,
        },
        ActionView::Probe(p) => {
            &&& (e matches EventView::Probed(Some(len)) ==> fs.files.contains_key(p)
                && fs.files[p] == len)
            &&& fs2 == fs
        },
        ActionView::CreateTemp(p) => match e {
            EventView::Done(Ok(())) => fs2 == FileSystem { files: fs.files.insert(p, 0), ..fs },
            EventView::Done(Err(_)) => true,
            _ => fs2 == fs,
        },
        ActionView::WriteChunk(n) => {
            let part = part_path(target_path(s));
            match e {
                EventView::Done(Ok(())) => fs2 == FileSystem {
                    files: fs.files.insert(part, fs.files[part] + n as nat),
                    ..fs
                },
                EventView::Done(Err(_)) => true,
                _ => fs2 == fs,
            }
        },
        ActionView::Rename(from, to) => match e {
            EventView::Done(Ok(())) => fs2 == FileSystem {
                files: fs.files.remove(from).insert(to, fs.files[from]),
                ..fs
            },
            EventView::Done(Err(_)) => true,
            _ => fs2 == fs,
        },
        ActionView::RemoveTemp(_) => true,
        _ => fs2 == fs,
    }
}

/// A run of a download: `states[k + 1]` follows `states[k]` on `events[k]`,
/// which the caller reported after performing the pending action
/// faithfully on the file system, taking it from `worlds[k]` to
/// `worlds[k + 1]`.
pub open spec fn faithful_run(
    states: Seq<DownloadState>,
    events: Seq<EventView>,
    worlds: Seq<FileSystem>,
) -> bool {
    &&& states.len() == events.len() + 1
    &&& worlds.len() == states.len()
    &&& forall|k: int|
        0 <= k < events.len() ==> #[trigger] states[k + 1] == transition(states[k], events[k])
            && faithful(states[k], worlds[k], events[k], worlds[k + 1])
}

/// No partial file lands on a file of the model: no file's path in `dest`
/// is another's with `.part` appended.
pub open spec fn no_part_clash(dest: Seq<char>, files: Seq<FileSpecView>) -> bool {
    forall|i: int, j: int|
        0 <= i < files.len() && 0 <= j < files.len() ==> #[trigger] join_path(
            dest,
            files[j].filename,
        ) != part_path(#[trigger] join_path(dest, files[i].filename))
}

/// Every file fetched in the run brought at least one byte: no transfer
/// ended with nothing received.
pub open spec fn no_empty_transfer(states: Seq<DownloadState>, events: Seq<EventView>) -> bool {
    forall|k: int|
        0 <= k < events.len() && #[trigger] states[k].phase == Phase::Reading && events[k]
            == EventView::Read(Ok(0usize)) ==> states[k].received > 0
}

/// What holds of a download that has not failed, against the file system
/// it runs on: its directory exists once created, the files already
/// handled are in place, and the partial file holds at least the bytes
/// received.
pub open spec fn on_track(s: DownloadState, fs: FileSystem) -> bool {
    &&& (s.phase != Phase::Start && s.phase != Phase::CreatingDir) ==> fs.dirs.contains(s.dest)
    &&& forall|j: int|
        0 <= j < s.index && j < s.files.len() ==> fs.files.contains_key(
            #[trigger] file_target(s, j),
        ) && fs.files[file_target(s, j)] > 0
    &&& (s.phase == Phase::CheckInLoop || s.phase == Phase::Reading || s.phase is Writing
        || s.phase == Phase::Reporting || s.phase == Phase::Flushing || s.phase
        == Phase::Renaming) ==> fs.files.contains_key(part_path(target_path(s)))
        && fs.files[part_path(target_path(s))] >= s.received
    &&& (s.phase == Phase::Flushing || s.phase == Phase::Renaming) ==> s.received > 0
}

/// One faithful step keeps a download that has not failed on track.
proof fn lemma_step_on_track(s: DownloadState, fs: FileSystem, e: EventView, fs2: FileSystem)
    requires
        download_wf(s),
        s.error is None,
        on_track(s, fs),
        no_part_clash(s.dest, s.files),
        faithful(s, fs, e, fs2),
        s.phase == Phase::Reading && e == EventView::Read(Ok(0usize)) ==> s.received > 0,
    ensures
        transition(s, e).error is None ==> on_track(transition(s, e), fs2),
{
    let t = transition(s, e);
    lemma_transition_wf(s, e);
    if t.error is None {
        assert(t.files == s.files && t.dest == s.dest);
        if s.phase == Phase::CreatingTemp || s.phase is Writing || s.phase == Phase::Renaming {
            let i = s.index as int;
            assert forall|j: int| 0 <= j < s.index && j < s.files.len() implies fs2.files.contains_key(
                #[trigger] file_target(s, j),
            ) && fs2.files[file_target(s, j)] > 0 by {
                assert(file_target(s, j) != part_path(file_target(s, i)));
                assert(fs.files.contains_key(file_target(s, j)));
            }
            if s.phase == Phase::Renaming {
                assert forall|j: int| 0 <= j < t.index && j < t.files.len() implies fs2.files.contains_key(
                    #[trigger] file_target(t, j),
                ) && fs2.files[file_target(t, j)] > 0 by {
                    assert(file_target(t, j) == file_target(s, j));
                    if j < s.index {
                    } else {
                        assert(j == i);
                        assert(file_target(s, i) == target_path(s));
                    }
                }
            } else {
                assert forall|j: int| 0 <= j < t.index && j < t.files.len() implies fs2.files.contains_key(
                    #[trigger] file_target(t, j),
                ) && fs2.files[file_target(t, j)] > 0 by {
                    assert(file_target(t, j) == file_target(s, j));
                }
            }
        } else if s.phase == Phase::Probing {
            assert forall|j: int| 0 <= j < t.index && j < t.files.len() implies fs2.files.contains_key(
                #[trigger] file_target(t, j),
            ) && fs2.files[file_target(t, j)] > 0 by {
                assert(file_target(t, j) == file_target(s, j));
                if j == s.index {
                    assert(file_target(s, j) == target_path(s));
                }
            }
        } else {
            assert forall|j: int| 0 <= j < t.index && j < t.files.len() implies fs2.files.contains_key(
                #[trigger] file_target(t, j),
            ) && fs2.files[file_target(t, j)] > 0 by {
                assert(file_target(t, j) == file_target(s, j));
            }
        }
    }
}

/// Along a faithful run, a download that has not failed stays on track.
proof fn lemma_run_on_track(
    states: Seq<DownloadState>,
    events: Seq<EventView>,
    worlds: Seq<FileSystem>,
    k: int,
)
    requires
        faithful_run(states, events, worlds),
        download_wf(states[0]),
        states[0].phase == Phase::Start,
        no_part_clash(states[0].dest, states[0].files),
        no_empty_transfer(states, events),
        0 <= k < states.len(),
    ensures
        download_wf(states[k]),
        states[k].files == states[0].files,
        states[k].dest == states[0].dest,
        states[k].error is None ==> on_track(states[k], worlds[k]),
    decreases k,
{
    if k > 0 {
        lemma_run_on_track(states, events, worlds, k - 1);
        let s = states[k - 1];
        assert(states[(k - 1) + 1] == transition(s, events[k - 1]));
        assert(faithful(s, worlds[k - 1], events[k - 1], worlds[(k - 1) + 1]));
        lemma_transition_wf(s, events[k - 1]);
        if s.error is Some {
            assert(s.phase == Phase::Failed || s.phase == Phase::CleaningUp);
        } else {
            if s.phase == Phase::Reading && events[k - 1] == EventView::Read(Ok(0usize)) {
                assert(states[k - 1].phase == Phase::Reading);
            }
            lemma_step_on_track(s, worlds[k - 1], events[k - 1], worlds[k]);
        }
    }
}

/// A download that finishes successfully has created its directory and
/// left every file of the model in place in it, as a file of non-zero
/// size, whatever the caller reported along the way; provided the caller
/// performed each action faithfully, every fetched file brought at least
/// one byte, and no partial file lands on a file of the model.
pub proof fn lemma_success_leaves_files_in_place(
    files: Seq<FileSpecView>,
    dest: Seq<char>,
    size: u64,
    style: PathStyle,
    states: Seq<DownloadState>,
    events: Seq<EventView>,
    worlds: Seq<FileSystem>,
)
    requires
        states.len() > 0,
        states[0] == download_start(files, dest, size, style),
        faithful_run(states, events, worlds),
        no_part_clash(dest, files),
        no_empty_transfer(states, events),
        pending_action(states.last()) == ActionView::Finish(Ok(())),
    ensures
        worlds.last().dirs.contains(dest),
        forall|i: int|
            0 <= i < files.len() ==> worlds.last().files.contains_key(
                #[trigger] join_path(dest, files[i].filename),
            ) && worlds.last().files[join_path(dest, files[i].filename)] > 0,
{
    let n = states.len() - 1;
    lemma_run_on_track(states, events, worlds, n);
    let s = states[n];
    assert(s.phase == Phase::Succeeded || s.phase == Phase::Failed);
    if s.phase == Phase::Failed {
        assert(s.error is Some);
        assert(false);
    }
    assert forall|i: int| 0 <= i < files.len() implies worlds.last().files.contains_key(
        #[trigger] join_path(dest, files[i].filename),
    ) && worlds.last().files[join_path(dest, files[i].filename)] > 0 by {
        assert(file_target(s, i) == join_path(dest, files[i].filename));
    }
}

/// A probe of a regular file of non-zero size reports it with its size.
pub open spec fn probes_report_files(
    states: Seq<DownloadState>,
    events: Seq<EventView>,
    worlds: Seq<FileSystem>,
) -> bool {
    forall|k: int|
        0 <= k < events.len() && #[trigger] states[k].phase == Phase::Probing ==> {
            let p = target_path(states[k]);
            events[k] matches EventView::Probed(r) ==> (worlds[k].files.contains_key(p)
                && worlds[k].files[p] > 0 ==> (r matches Some(len) && len == worlds[k].files[p]))
        }
}

/// The phases of a download that has fetched nothing.
pub open spec fn fetches_nothing(s: DownloadState) -> bool {
    s.phase == Phase::Start || s.phase == Phase::CreatingDir || s.phase == Phase::Probing
        || s.phase == Phase::Succeeded || s.phase == Phase::Failed
}

/// Along a faithful run over a cache that holds every file, the download
/// stays among the phases that fetch nothing, and the files stay as they were.
proof fn lemma_run_fetches_nothing(
    states: Seq<DownloadState>,
    events: Seq<EventView>,
    worlds: Seq<FileSystem>,
    k: int,
)
    requires
        faithful_run(states, events, worlds),
        probes_report_files(states, events, worlds),
        download_wf(states[0]),
        fetches_nothing(states[0]),
        forall|i: int|
            0 <= i < states[0].files.len() ==> worlds[0].files.contains_key(
                #[trigger] file_target(states[0], i),
            ) && worlds[0].files[file_target(states[0], i)] > 0,
        0 <= k < states.len(),
    ensures
        download_wf(states[k]),
        states[k].files == states[0].files,
        states[k].dest == states[0].dest,
        fetches_nothing(states[k]),
        worlds[k].files == worlds[0].files,
    decreases k,
{
    if k > 0 {
        lemma_run_fetches_nothing(states, events, worlds, k - 1);
        let s = states[k - 1];
        let e = events[k - 1];
        assert(states[(k - 1) + 1] == transition(s, e));
        assert(faithful(s, worlds[k - 1], e, worlds[(k - 1) + 1]));
        lemma_transition_wf(s, e);
        if s.phase == Phase::Probing {
            assert(states[k - 1].phase == Phase::Probing);
            assert(file_target(states[0], s.index as int) == target_path(s));
        }
    }
}

/// A download of a model whose files are all in the cache fetches nothing:
/// each file is found by its probe and skipped, so no source is opened,
/// no partial file is created and the files of the cache are left as they
/// were; provided the caller performed each action faithfully and its
/// probes report the files that are there.
pub proof fn lemma_complete_cache_fetches_nothing(
    files: Seq<FileSpecView>,
    dest: Seq<char>,
    size: u64,
    style: PathStyle,
    states: Seq<DownloadState>,
    events: Seq<EventView>,
    worlds: Seq<FileSystem>,
)
    requires
        states.len() > 0,
        states[0] == download_start(files, dest, size, style),
        faithful_run(states, events, worlds),
        probes_report_files(states, events, worlds),
        forall|i: int|
            0 <= i < files.len() ==> worlds[0].files.contains_key(
                #[trigger] join_path(dest, files[i].filename),
            ) && worlds[0].files[join_path(dest, files[i].filename)] > 0,
    ensures
        forall|k: int|
            0 <= k < states.len() ==> !(#[trigger] pending_action(states[k]) is StatSource
                || pending_action(states[k]) is OpenSource || pending_action(states[k]) is OpenRemote
                || pending_action(states[k]) is CreateTemp),
        forall|k: int| 0 <= k < worlds.len() ==> #[trigger] worlds[k].files == worlds[0].files,
{
    assert forall|i: int| 0 <= i < states[0].files.len() implies worlds[0].files.contains_key(
        #[trigger] file_target(states[0], i),
    ) && worlds[0].files[file_target(states[0], i)] > 0 by {
        assert(file_target(states[0], i) == join_path(dest, files[i].filename));
    }
    assert forall|k: int| 0 <= k < states.len() implies !(#[trigger] pending_action(
        states[k],
    ) is StatSource || pending_action(states[k]) is OpenSource || pending_action(states[k]) is OpenRemote
        || pending_action(states[k]) is CreateTemp) by {
        lemma_run_fetches_nothing(states, events, worlds, k);
    }
    assert forall|k: int| 0 <= k < worlds.len() implies #[trigger] worlds[k].files == worlds[0].files by {
        lemma_run_fetches_nothing(states, events, worlds, k);
    }
}

/// Percent-decoding leaves bytes without a `%` unchanged.
pub proof fn lemma_percent_decode_plain(b: Seq<u8>, i: int)
    requires
        0 <= i <= b.len(),
        forall|k: int| i <= k < b.len() ==> b[k] != 0x25,
    ensures
        percent_decoded_from(b, i) == b.skip(i),
    decreases b.len() - i,
{
    if i < b.len() {
        lemma_percent_decode_plain(b, i + 1);
        assert(b.skip(i) =~= Seq::empty().push(b[i]) + b.skip(i + 1));
    } else {
        assert(b.skip(i) =~= Seq::<u8>::empty());
    }
}

/// Each `%XY` escape becomes the byte `0xXY`: decoding `%` followed by two
/// hex digits and then `rest` yields that byte followed by the decoding of
/// `rest`.
pub proof fn lemma_percent_decode_escape(hi: u8, lo: u8, rest: Seq<u8>)
    requires
        hex_value(hi) is Some,
        hex_value(lo) is Some,
    ensures
        percent_decoded(seq![0x25u8, hi, lo] + rest) == seq![
            (hex_value(hi)->Some_0 * 16 + hex_value(lo)->Some_0) as u8,
        ] + percent_decoded(rest),
{
    let b = seq![0x25u8, hi, lo] + rest;
    assert(b[0] == 0x25u8);
    assert(b[1] == hi);
    assert(b[2] == lo);
    assert(escape_at(b, 0));
    assert(b.skip(3) =~= rest);
    lemma_decode_shift(b, rest, 3);
}

/// Decoding from position `k` of `prefix + rest` is decoding `rest` when
/// `k` is the length of the prefix.
proof fn lemma_decode_shift(b: Seq<u8>, rest: Seq<u8>, k: int)
    requires
        0 <= k <= b.len(),
        b.skip(k) == rest,
    ensures
        percent_decoded_from(b, k) == percent_decoded_from(rest, 0),
    decreases b.len() - k,
{
    if k < b.len() {
        assert(rest[0] == b[k]);
        if escape_at(b, k) {
            assert(escape_at(rest, 0));
            assert(b.skip(k + 3) =~= rest.skip(3));
            lemma_decode_shift(b, rest.skip(3), k + 3);
            lemma_decode_shift(rest, rest.skip(3), 3);
        } else {
            assert(!escape_at(rest, 0)) by {
                if rest.len() > 2 {
                    assert(rest[1] == b[k + 1]);
                    assert(rest[2] == b[k + 2]);
                }
            }
            assert(b.skip(k + 1) =~= rest.skip(1));
            lemma_decode_shift(b, rest.skip(1), k + 1);
            lemma_decode_shift(rest, rest.skip(1), 1);
        }
    }
}

proof fn lemma_high_bit_not_percent(y: u8)
    by (bit_vector)
    ensures
        (0x80u8 | y) != 0x25u8,
        (0xC0u8 | y) != 0x25u8,
        (0xE0u8 | y) != 0x25u8,
        (0xF0u8 | y) != 0x25u8,
{
}

proof fn lemma_low_byte(v: u32)
    by (bit_vector)
    requires
        v <= 0x7F,
    ensures
        (v & 0x7F) as u8 == v as u8,
{
}

/// The UTF-8 encoding of a character other than `%` holds no `%` byte.
proof fn lemma_scalar_has_no_percent(c: char)
    requires
        c != '%',
    ensures
        forall|k: int|
            0 <= k < encode_scalar(c as u32).len() ==> #[trigger] encode_scalar(c as u32)[k]
                != 0x25u8,
{
    let v = c as u32;
    char_is_scalar(c);
    if has_width_1_encoding(v) {
        lemma_low_byte(v);
        assert(v != 0x25u32) by {
            if v == 0x25u32 {
                char_u32_cast(c, v);
                char_u32_cast('%', v);
            }
        }
        assert(encode_scalar(v)[0] == v as u8);
    } else {
        lemma_high_bit_not_percent(((v >> 6) & 0x1F) as u8);
        lemma_high_bit_not_percent(((v >> 12) & 0x0F) as u8);
        lemma_high_bit_not_percent(((v >> 18) & 0x7) as u8);
        lemma_high_bit_not_percent((v & 0x3F) as u8);
        lemma_high_bit_not_percent(((v >> 6) & 0x3F) as u8);
        lemma_high_bit_not_percent(((v >> 12) & 0x3F) as u8);
    }
}

/// The UTF-8 encoding of text without `%` holds no `%` byte.
proof fn lemma_encoding_has_no_percent(t: Seq<char>)
    requires
        forall|i: int| 0 <= i < t.len() ==> t[i] != '%',
    ensures
        forall|k: int| 0 <= k < encode_utf8(t).len() ==> #[trigger] encode_utf8(t)[k] != 0x25u8,
    decreases t.len(),
{
    if t.len() > 0 {
        lemma_scalar_has_no_percent(t[0]);
        lemma_encoding_has_no_percent(t.drop_first());
        let a = encode_scalar(t[0] as u32);
        let b = encode_utf8(t.drop_first());
        assert(encode_utf8(t) == a + b);
        assert forall|k: int| 0 <= k < encode_utf8(t).len() implies #[trigger] encode_utf8(t)[k]
            != 0x25u8 by {
            if k < a.len() {
                assert(encode_utf8(t)[k] == a[k]);
            } else {
                assert(encode_utf8(t)[k] == b[k - a.len()]);
            }
        }
    }
}

/// A `file://` path without `%` names itself: decoding changes nothing.
pub proof fn lemma_plain_path_unchanged(t: Seq<char>)
    requires
        forall|i: int| 0 <= i < t.len() ==> t[i] != '%',
    ensures
        percent_decode_result(t) == Ok::<Seq<char>, DownloadErrorView>(t),
{
    let b = encode_utf8(t);
    lemma_encoding_has_no_percent(t);
    lemma_percent_decode_plain(b, 0);
    assert(b.skip(0) =~= b);
    encode_utf8_valid_utf8(t);
    encode_utf8_decode_utf8(t);
}


/// On Windows, a `/` in front of a drive letter (either case) and a colon
/// is dropped, whatever follows; a path that does not start that way is
/// kept as it is.
pub proof fn lemma_windows_drive_letter(x: char, t: Seq<char>)
    ensures
        ('a' <= x <= 'z' || 'A' <= x <= 'Z') ==> windows_path(seq!['/', x, ':'] + t) == seq![x, ':']
            + t,
        !('a' <= x <= 'z' || 'A' <= x <= 'Z') ==> windows_path(seq!['/', x, ':'] + t) == seq![
            '/',
            x,
            ':',
        ] + t,
        t.len() == 0 || t[0] != '/' ==> windows_path(t) == t,
{
    let d = seq!['/', x, ':'] + t;
    assert(d[0] == '/' && d[1] == x && d[2] == ':');
    assert(d.skip(1) =~= seq![x, ':'] + t);
}

/// A `file://` URL naming `x:` followed by a path without `%` maps, on
/// Windows, to the path from the drive letter on (either case).
pub proof fn lemma_windows_file_url(x: char, t: Seq<char>)
    requires
        'a' <= x <= 'z' || 'A' <= x <= 'Z',
        forall|i: int| 0 <= i < t.len() ==> t[i] != '%',
    ensures
        local_path(PathStyle::Windows, seq!['/', x, ':'] + t) == Ok::<
            Seq<char>,
            DownloadErrorView,
        >(seq![x, ':'] + t),
        local_path(PathStyle::Posix, seq!['/', x, ':'] + t) == Ok::<Seq<char>, DownloadErrorView>(
            seq!['/', x, ':'] + t,
        ),
{
    let d = seq!['/', x, ':'] + t;
    assert forall|i: int| 0 <= i < d.len() implies d[i] != '%' by {
        if i >= 3 {
            assert(d[i] == t[i - 3]);
        }
    }
    lemma_plain_path_unchanged(d);
    lemma_windows_drive_letter(x, t);
}

} // verus!
