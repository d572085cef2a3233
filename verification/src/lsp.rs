//! The verified core of the stdio JSON-RPC stub: header framing and
//! method dispatch decisions.
//!
//! The stub reads `Content-Length`-framed messages: headers terminated
//! by a blank line, then a JSON body of the given byte length. The
//! framing logic here is pure; the I/O and the JSON work sit outside the
//! library. The stub answers only `initialize` and `shutdown` requests
//! and the `exit` notification; everything else gets a "method not
//! found" error.

use vstd::prelude::*;

verus! {

/// The JSON-RPC error code for a method the server does not know.
pub const METHOD_NOT_FOUND_CODE: i32 = -32601;

/// The end of the header block: one past the first `\r\n\r\n` at or
/// after `pos`.
pub open spec fn spec_headers_end(buf: Seq<u8>, pos: int) -> Option<int>
    decreases buf.len() - pos,
{
    if pos < 0 || pos + 4 > buf.len() {
        None
    } else if buf[pos] == 13u8 && buf[pos + 1] == 10u8 && buf[pos + 2] == 13u8 && buf[pos + 3]
        == 10u8 {
        Some(pos + 4)
    } else {
        spec_headers_end(buf, pos + 1)
    }
}

/// Where the content after the header block starts, if the block is
/// complete: one past the first blank line.
pub open spec fn finished_headers_spec(buf: Seq<u8>) -> Option<int> {
    spec_headers_end(buf, 0)
}

/// Scan a buffer for the end of the header block. Returns exactly what
/// `finished_headers_spec` describes.
pub fn finished_headers(buf: &[u8]) -> (r: Option<usize>)
    ensures
        match r {
            Some(p) => finished_headers_spec(buf@) == Some(p as int),
            None => finished_headers_spec(buf@) is None,
        },
{
    let n = buf.len();
    if n < 4 {
        return None;
    }
    let mut i: usize = 0;
    while i <= n - 4
        invariant
            n == buf@.len(),
            4 <= n,
            i <= n - 3,
            spec_headers_end(buf@, 0) == spec_headers_end(buf@, i as int),
        decreases n - i,
    {
        if buf[i] == 13u8 && buf[i + 1] == 10u8 && buf[i + 2] == 13u8 && buf[i + 3] == 10u8 {
            return Some(i + 4);
        }
        i += 1;
    }
    None
}

/// ASCII whitespace, as trimmed from the header block.
pub open spec fn spec_is_ws(c: char) -> bool {
    c == ' ' || c == '\t' || c == '\n' || c == '\r'
}

/// The first index at or after `i` holding no whitespace.
pub open spec fn spec_trim_start(s: Seq<char>, i: int) -> int
    decreases s.len() - i,
{
    if i < 0 || i >= s.len() {
        i
    } else if spec_is_ws(s[i]) {
        spec_trim_start(s, i + 1)
    } else {
        i
    }
}

/// One past the last non-whitespace index below `j`.
pub open spec fn spec_trim_end(s: Seq<char>, j: int) -> int
    decreases j,
{
    if j <= 0 {
        0
    } else if spec_is_ws(s[j - 1]) {
        spec_trim_end(s, j - 1)
    } else {
        j
    }
}

/// The text with leading and trailing whitespace removed.
pub open spec fn spec_trim(s: Seq<char>) -> Seq<char> {
    let a = spec_trim_start(s, 0);
    let b = spec_trim_end(s, s.len() as int);
    if a <= b {
        s.subrange(a, b)
    } else {
        Seq::empty()
    }
}

/// The first index at or after `pos` where `c1` is immediately followed
/// by `c2`.
pub open spec fn spec_find_two(s: Seq<char>, pos: int, c1: char, c2: char) -> Option<int>
    decreases s.len() - pos,
{
    if pos < 0 || pos + 2 > s.len() {
        None
    } else if s[pos] == c1 && s[pos + 1] == c2 {
        Some(pos)
    } else {
        spec_find_two(s, pos + 1, c1, c2)
    }
}

/// A header parse failure.
#[derive(Debug, PartialEq, Eq, Clone)]
pub enum HeaderError {
    /// A header line without the `": "` separator between name and
    /// value.
    MissingSeparator,
}

/// One header line split at the first `": "` into name and value.
pub open spec fn spec_split_header(piece: Seq<char>) -> Result<(Seq<char>, Seq<char>), HeaderError> {
    match spec_find_two(piece, 0, ':', ' ') {
        Some(i) => Ok((piece.subrange(0, i), piece.subrange(i + 2, piece.len() as int))),
        None => Err(HeaderError::MissingSeparator),
    }
}

/// The header lines of a trimmed block, split on `\r\n`, each divided at
/// its first `": "`.
pub open spec fn spec_header_lines(s: Seq<char>) -> Result<
    Seq<(Seq<char>, Seq<char>)>,
    HeaderError,
>
    decreases s.len(),
{
    match spec_find_two(s, 0, '\r', '\n') {
        Some(i) => match spec_split_header(s.subrange(0, i)) {
            Ok(pair) => {
                if 0 <= i && i + 2 <= s.len() {
                    match spec_header_lines(s.subrange(i + 2, s.len() as int)) {
                        Ok(rest) => Ok(seq![pair] + rest),
                        Err(e) => Err(e),
                    }
                } else {
                    Err(HeaderError::MissingSeparator)
                }
            },
            Err(e) => Err(e),
        },
        None => match spec_split_header(s) {
            Ok(pair) => Ok(seq![pair]),
            Err(e) => Err(e),
        },
    }
}

/// The name-value pairs of a header block: the block is trimmed, split
/// into lines on `\r\n`, and each line is divided at its first `": "`.
/// A line without the separator fails the whole block.
pub open spec fn parse_headers_spec(s: Seq<char>) -> Result<
    Seq<(Seq<char>, Seq<char>)>,
    HeaderError,
> {
    spec_header_lines(spec_trim(s))
}

fn is_ws(c: char) -> (b: bool)
    ensures
        b == spec_is_ws(c),
{
    c == ' ' || c == '\t' || c == '\n' || c == '\r'
}

/// The text with leading and trailing whitespace removed.
fn trim_ws(s: &str) -> (r: &str)
    ensures
        r@ == spec_trim(s@),
{
    let n = s.unicode_len();
    let mut a: usize = 0;
    while a < n && is_ws(s.get_char(a))
        invariant
            n == s@.len(),
            a <= n,
            spec_trim_start(s@, 0) == spec_trim_start(s@, a as int),
        decreases n - a,
    {
        a += 1;
    }
    assert(spec_trim_start(s@, 0) == a as int);
    let mut b: usize = n;
    while b > a && is_ws(s.get_char(b - 1))
        invariant
            n == s@.len(),
            a <= b <= n,
            spec_trim_start(s@, 0) == a as int,
            spec_trim_end(s@, n as int) == spec_trim_end(s@, b as int),
        decreases b,
    {
        b -= 1;
    }
    let r = s.substring_char(a, b);
    proof {
        lemma_trim_end_le(s@, b as int);
        assert(r@ =~= spec_trim(s@));
    }
    r
}

/// `spec_trim_end` never goes above its starting point.
proof fn lemma_trim_end_le(s: Seq<char>, j: int)
    requires
        0 <= j,
    ensures
        spec_trim_end(s, j) <= j,
    decreases j,
{
    if j > 0 && spec_is_ws(s[j - 1]) {
        lemma_trim_end_le(s, j - 1);
    }
}

/// The index of the first `c1 c2` pair at or after `from`, scanned
/// executably.
fn find_two(s: &str, from: usize, c1: char, c2: char) -> (r: Option<usize>)
    requires
        from <= s@.len(),
    ensures
        match r {
            Some(i) => ({
                &&& spec_find_two(s@, from as int, c1, c2) == Some(i as int)
                &&& from <= i
                &&& i + 2 <= s@.len()
            }),
            None => spec_find_two(s@, from as int, c1, c2) is None,
        },
{
    let n = s.unicode_len();
    if n < 2 || from > n - 2 {
        return None;
    }
    let mut i = from;
    while i <= n - 2
        invariant
            n == s@.len(),
            2 <= n,
            from <= i <= n - 1,
            spec_find_two(s@, from as int, c1, c2) == spec_find_two(s@, i as int, c1, c2),
        decreases n - i,
    {
        if s.get_char(i) == c1 && s.get_char(i + 1) == c2 {
            return Some(i);
        }
        i += 1;
    }
    None
}

/// One header line divided at its first `": "`.
fn split_header(piece: &str) -> (r: Result<(String, String), HeaderError>)
    ensures
        match r {
            Ok(pair) => spec_split_header(piece@) == Ok::<(Seq<char>, Seq<char>), HeaderError>(
                (pair.0@, pair.1@),
            ),
            Err(e) => spec_split_header(piece@) == Err::<(Seq<char>, Seq<char>), HeaderError>(e),
        },
{
    match find_two(piece, 0, ':', ' ') {
        Some(i) => {
            let n = piece.unicode_len();
            let name = piece.substring_char(0, i).to_owned();
            let value = piece.substring_char(i + 2, n).to_owned();
            Ok((name, value))
        },
        None => Err(HeaderError::MissingSeparator),
    }
}

/// The header lines of a trimmed block.
fn header_lines(s: &str) -> (r: Result<Vec<(String, String)>, HeaderError>)
    ensures
        match r {
            Ok(list) => spec_header_lines(s@) == Ok::<Seq<(Seq<char>, Seq<char>)>, HeaderError>(
                list.deep_view(),
            ),
            Err(e) => spec_header_lines(s@) == Err::<Seq<(Seq<char>, Seq<char>)>, HeaderError>(e),
        },
    decreases s@.len(),
{
    match find_two(s, 0, '\r', '\n') {
        Some(i) => {
            let n = s.unicode_len();
            let piece = s.substring_char(0, i);
            match split_header(piece) {
                Ok(pair) => {
                    let rest_str = s.substring_char(i + 2, n);
                    proof {
                        assert(rest_str@.len() < s@.len());
                    }
                    match header_lines(rest_str) {
                        Ok(mut rest) => {
                            let ghost rest0 = rest.deep_view();
                            rest.insert(0, pair);
                            proof {
                                assert(rest.deep_view() =~= seq![rest@[0].deep_view()] + rest0);
                            }
                            Ok(rest)
                        },
                        Err(e) => Err(e),
                    }
                },
                Err(e) => Err(e),
            }
        },
        None => match split_header(s) {
            Ok(pair) => {
                let list = vec![pair];
                proof {
                    assert(list.deep_view() =~= seq![list@[0].deep_view()]);
                }
                Ok(list)
            },
            Err(e) => Err(e),
        },
    }
}

/// Parse a header block into its name-value pairs, or report a line
/// without the `": "` separator. Returns exactly what
/// `parse_headers_spec` describes.
pub fn parse_headers(buf: &str) -> (r: Result<Vec<(String, String)>, HeaderError>)
    ensures
        match r {
            Ok(list) => parse_headers_spec(buf@) == Ok::<
                Seq<(Seq<char>, Seq<char>)>,
                HeaderError,
            >(list.deep_view()),
            Err(e) => parse_headers_spec(buf@) == Err::<
                Seq<(Seq<char>, Seq<char>)>,
                HeaderError,
            >(e),
        },
{
    header_lines(trim_ws(buf))
}

/// What the stub does with a request, by its method name.
#[derive(Debug, PartialEq, Eq, Structural, Clone, Copy)]
pub enum RequestAction {
    /// Answer `initialize` with the server's capabilities.
    RespondInitialize,
    /// Answer `shutdown` with an empty result.
    RespondShutdown,
    /// Answer anything else with a "method not found" error.
    RespondMethodNotFound,
}

pub open spec fn classify_request_method_spec(method: Seq<char>) -> RequestAction {
    if method == "initialize"@ {
        RequestAction::RespondInitialize
    } else if method == "shutdown"@ {
        RequestAction::RespondShutdown
    } else {
        RequestAction::RespondMethodNotFound
    }
}

/// The dispatch decision for a request method.
pub fn classify_request_method(method: &str) -> (r: RequestAction)
    ensures
        r == classify_request_method_spec(method@),
{
    if crate::lexer::str_eq(method, "initialize") {
        RequestAction::RespondInitialize
    } else if crate::lexer::str_eq(method, "shutdown") {
        RequestAction::RespondShutdown
    } else {
        RequestAction::RespondMethodNotFound
    }
}

/// What the stub does with a notification, by its method name.
#[derive(Debug, PartialEq, Eq, Structural, Clone, Copy)]
pub enum NotificationAction {
    /// `exit` ends the process.
    Exit,
    /// Anything else is logged back to the client as unknown.
    LogUnknownMethod,
}

pub open spec fn classify_notification_method_spec(method: Seq<char>) -> NotificationAction {
    if method == "exit"@ {
        NotificationAction::Exit
    } else {
        NotificationAction::LogUnknownMethod
    }
}

/// The dispatch decision for a notification method.
pub fn classify_notification_method(method: &str) -> (r: NotificationAction)
    ensures
        r == classify_notification_method_spec(method@),
{
    if crate::lexer::str_eq(method, "exit") {
        NotificationAction::Exit
    } else {
        NotificationAction::LogUnknownMethod
    }
}

/// The `initialize` parameters the stub reads, shorn of the JSON
/// plumbing.
#[derive(Debug, PartialEq, Clone)]
pub struct InitializeParams {
    /// The process id of the parent process that started the server, if
    /// the client sent one.
    pub process_id: Option<i32>,
    /// Information about the client.
    pub client_info: Option<InitializeParams__ClientInfo>,
    /// The locale the client currently shows its user interface in.
    pub locale: Option<String>,
    /// The root path of the workspace, if a folder is open.
    pub root_path: Option<String>,
}

/// Information about the client.
#[derive(Debug, PartialEq, Clone)]
pub struct InitializeParams__ClientInfo {
    /// The name of the client, as the client defines it.
    pub name: String,
    /// The client's version, as the client defines it.
    pub version: Option<String>,
}

/// Workspace-specific capabilities the server may announce.
#[allow(non_snake_case)]
#[derive(Debug, PartialEq, Clone)]
pub struct InitializeResult__ServerCapabilities__Workspace {
    /// Whether the server supports workspace folders.
    pub workspaceFolders: Option<()>,
    /// Which file notifications and requests the server wants.
    pub fileOperations: Option<InitializeResult__ServerCapabilities__Workspace__FileOperations>,
}

/// The file notifications and requests a server may register for.
#[allow(non_snake_case)]
#[derive(Debug, PartialEq, Clone)]
pub struct InitializeResult__ServerCapabilities__Workspace__FileOperations {
    pub didCreate: Option<()>,
    pub willCreate: Option<()>,
    pub didRename: Option<()>,
    pub willRename: Option<()>,
    pub didDelete: Option<()>,
    pub willDelete: Option<()>,
}

/// Information about the server, sent in the `initialize` answer.
#[derive(Debug, PartialEq, Clone)]
pub struct InitializeResult__ServerInfo {
    /// The name of the server, as the server defines it.
    pub name: String,
    /// The server's version, as the server defines it.
    pub version: Option<String>,
}

/// The server information this stub answers `initialize` with.
pub fn server_info() -> (r: InitializeResult__ServerInfo)
    ensures
        r.name@ == "Loki Language Server"@,
        r.version is None,
{
    InitializeResult__ServerInfo { name: "Loki Language Server".to_owned(), version: None }
}

} // verus!
