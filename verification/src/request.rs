//! The request line: its three tokens, the decoded target, and the record
//! that the rest of the server works on.

use vstd::prelude::*;
use vstd::string::*;
use crate::text::{chars_of, find_from, first_index, lemma_first_index_is};

verus! {

/// A parsed request line.
#[derive(Debug, Clone, PartialEq, Eq)]
pub struct Request {
    /// The method token, as sent.
    pub method: String,
    /// The percent-decoded path; it starts with `/`.
    pub path: String,
    /// What follows the first `?` of the decoded target; empty if there is none.
    pub query: String,
    /// The protocol version token, as sent.
    pub version: String,
}

/// The mathematical content of a `Request`.
pub struct RequestView {
    pub method: Seq<char>,
    pub path: Seq<char>,
    pub query: Seq<char>,
    pub version: Seq<char>,
}

impl View for Request {
    type V = RequestView;

    open spec fn view(&self) -> RequestView {
        RequestView {
            method: self.method@,
            path: self.path@,
            query: self.query@,
            version: self.version@,
        }
    }
}

/// Whether a path starts with `/`.
pub open spec fn is_rooted(path: Seq<char>) -> bool {
    path.len() > 0 && path[0] == '/'
}

impl Request {
    /// What holds of every request that parsing yields: its path starts
    /// with `/`.
    pub open spec fn wf(&self) -> bool {
        is_rooted(self@.path)
    }
}

/// Why a request line was rejected.
#[derive(Debug, Clone, Copy, PartialEq, Eq)]
pub enum ParseError {
    /// The line does not hold three tokens separated by single spaces.
    RequestLine,
    /// The decoded path does not start with `/`.
    Path,
}

/// The three tokens of a request line: the text before the first space,
/// the text between the first and the second space, and everything after
/// the second space. `None` when the line holds fewer than two spaces.
pub open spec fn request_line_parts(line: Seq<char>) -> Option<(Seq<char>, Seq<char>, Seq<char>)> {
    let i = first_index(line, ' ');
    if i >= line.len() {
        None
    } else {
        let rest = line.skip(i + 1);
        let j = first_index(rest, ' ');
        if j >= rest.len() {
            None
        } else {
            Some((line.take(i), rest.take(j), rest.skip(j + 1)))
        }
    }
}

/// The path of a decoded target: what precedes its first `?`.
pub open spec fn target_path(decoded: Seq<char>) -> Seq<char> {
    decoded.take(first_index(decoded, '?'))
}

/// The query string of a decoded target: what follows its first `?`, or
/// nothing.
pub open spec fn target_query(decoded: Seq<char>) -> Seq<char> {
    let k = first_index(decoded, '?');
    if k < decoded.len() {
        decoded.skip(k + 1)
    } else {
        Seq::<char>::empty()
    }
}

/// Whether `c` is a hexadecimal digit, in either case.
pub open spec fn is_hex_digit(c: char) -> bool {
    let u = c as u32;
    (0x30 <= u <= 0x39) || (0x41 <= u <= 0x46) || (0x61 <= u <= 0x66)
}

/// Whether a percent escape (`%` and two hexadecimal digits) starts at
/// index `i` of `s`.
pub open spec fn escape_at(s: Seq<char>, i: int) -> bool {
    0 <= i && i + 2 < s.len() && s[i] == '%' && is_hex_digit(s[i + 1]) && is_hex_digit(s[i + 2])
}

/// Whether `s` holds a percent escape anywhere.
pub open spec fn has_escape(s: Seq<char>) -> bool {
    exists|i: int| escape_at(s, i)
}

/// The value of a hexadecimal digit.
pub open spec fn hex_value(c: char) -> int {
    let u = c as u32;
    if 0x30 <= u <= 0x39 {
        u - 0x30
    } else if 0x41 <= u <= 0x46 {
        u - 0x41 + 10
    } else {
        u - 0x61 + 10
    }
}

/// The byte that the percent escape at index `i` of `s` stands for.
pub open spec fn escaped_byte(s: Seq<char>, i: int) -> int {
    16 * hex_value(s[i + 1]) + hex_value(s[i + 2])
}

/// Whether every percent escape of `s` stands for an ASCII byte.
pub open spec fn escapes_are_ascii(s: Seq<char>) -> bool {
    forall|i: int| escape_at(s, i) ==> escaped_byte(s, i) < 0x80
}

/// `s` with every percent escape replaced by the character whose code the
/// escape gives, read from left to right. A `%` that starts no escape
/// stands for itself.
pub open spec fn percent_decoded(s: Seq<char>) -> Seq<char>
    decreases s.len(),
{
    if s.len() == 0 {
        s
    } else if escape_at(s, 0) {
        seq![escaped_byte(s, 0) as u8 as char] + percent_decoded(s.skip(3))
    } else {
        seq![s[0]] + percent_decoded(s.skip(1))
    }
}

/// The text that percent-decoding a request target with an escape for a
/// byte above the ASCII range, and reading the bytes as UTF-8 with
/// replacement of malformed sequences, yields.
pub uninterp spec fn unescaped(uri: Seq<char>) -> Seq<char>;

/// The decoded form of a request target.
pub open spec fn uri_decoded(uri: Seq<char>) -> Seq<char> {
    if escapes_are_ascii(uri) {
        percent_decoded(uri)
    } else {
        unescaped(uri)
    }
}

/// Calls `percent_encoding::percent_decode` on the bytes of `uri` and
/// `PercentDecode::decode_utf8_lossy` on what it returns.
///
/// The decoder replaces each `%` that two hexadecimal digits follow by the
/// byte they give, from left to right, and reads the result as UTF-8. The
/// contract states the text that comes back where every such byte is
/// ASCII: the bytes are then valid UTF-8, each escape has become the
/// character with its code, and every other character stands as it was.
/// For any other target it only names the text.
#[verifier::external_body]
fn decode_uri(uri: &str) -> (decoded: String)
    ensures
        decoded@ == (if escapes_are_ascii(uri@) {
            percent_decoded(uri@)
        } else {
            unescaped(uri@)
        }),
{
    percent_encoding::percent_decode(uri.as_bytes()).decode_utf8_lossy().into_owned()
}

/// The request that a method token, a decoded target and a version token
/// make up.
pub open spec fn assembled(method: Seq<char>, decoded: Seq<char>, version: Seq<char>) -> Result<
    RequestView,
    ParseError,
> {
    let path = target_path(decoded);
    if is_rooted(path) {
        Ok(RequestView { method, path, query: target_query(decoded), version })
    } else {
        Err(ParseError::Path)
    }
}

/// What parsing a request line yields.
pub open spec fn parsed(line: Seq<char>) -> Result<RequestView, ParseError> {
    match request_line_parts(line) {
        Some((method, uri, version)) => assembled(method, uri_decoded(uri), version),
        None => Err(ParseError::RequestLine),
    }
}

/// Splits a request line into method, target and version.
pub fn split_request_line(line: &str) -> (parts: Option<(&str, &str, &str)>)
    ensures
        match parts {
            Some((method, uri, version)) => request_line_parts(line@) == Some(
                (method@, uri@, version@),
            ),
            None => request_line_parts(line@) is None,
        },
{
    let v = chars_of(line);
    let n = v.len();
    let i = find_from(&v, 0, ' ');
    assert(v@.skip(0) =~= v@);
    if i >= n {
        return None;
    }
    let j = find_from(&v, i + 1, ' ');
    if j >= n {
        return None;
    }
    Some((line.substring_char(0, i), line.substring_char(i + 1, j), line.substring_char(j + 1, n)))
}

/// Splits a decoded target into path and query string.
pub fn split_target(decoded: &str) -> (parts: (&str, &str))
    ensures
        parts.0@ == target_path(decoded@),
        parts.1@ == target_query(decoded@),
{
    let v = chars_of(decoded);
    let n = v.len();
    let k = find_from(&v, 0, '?');
    proof {
        assert(v@.skip(0) =~= v@);
    }
    let path = decoded.substring_char(0, k);
    if k < n {
        (path, decoded.substring_char(k + 1, n))
    } else {
        (path, decoded.substring_char(n, n))
    }
}

/// Builds the request from its method, its decoded target and its version.
/// The target is split at its first `?`; a path that does not start with
/// `/` is rejected.
pub fn assemble(method: &str, decoded: &str, version: &str) -> (r: Result<Request, ParseError>)
    ensures
        match r {
            Ok(request) => request.wf() && assembled(method@, decoded@, version@) == Ok::<
                RequestView,
                ParseError,
            >(request@),
            Err(e) => assembled(method@, decoded@, version@) == Err::<RequestView, ParseError>(e),
        },
{
    let (path, query) = split_target(decoded);
    let rooted = {
        let v = chars_of(path);
        v.len() > 0 && v[0] == '/'
    };
    if rooted {
        Ok(
            Request {
                method: method.to_owned(),
                path: path.to_owned(),
                query: query.to_owned(),
                version: version.to_owned(),
            },
        )
    } else {
        Err(ParseError::Path)
    }
}

/// Parses a request line, given without its line terminator.
///
/// The line must hold a method, a target and a version, separated by
/// single spaces; the target is percent-decoded and split at its first `?`
/// into path and query string.
pub fn parse_request(request: &str) -> (r: Result<Request, ParseError>)
    ensures
        match r {
            Ok(req) => req.wf() && parsed(request@) == Ok::<RequestView, ParseError>(req@),
            Err(e) => parsed(request@) == Err::<RequestView, ParseError>(e),
        },
{
    match split_request_line(request) {
        Some((method, uri, version)) => {
            let decoded = decode_uri(uri);
            assemble(method, decoded.as_str(), version)
        },
        None => Err(ParseError::RequestLine),
    }
}

/// A line made of three tokens and two single spaces splits into those
/// tokens, where the first two hold no space.
pub proof fn lemma_request_line_parts(method: Seq<char>, target: Seq<char>, version: Seq<char>)
    requires
        !method.contains(' '),
        !target.contains(' '),
    ensures
        request_line_parts(method + seq![' '] + target + seq![' '] + version) == Some(
            (method, target, version),
        ),
{
    let line = method + seq![' '] + target + seq![' '] + version;
    let i = method.len() as int;
    lemma_first_index_is(line, ' ', i);
    let rest = line.skip(i + 1);
    let j = target.len() as int;
    lemma_first_index_is(rest, ' ', j);
}

/// A target without percent escapes decodes to itself.
pub proof fn lemma_decoded_without_escape(s: Seq<char>)
    requires
        !has_escape(s),
    ensures
        uri_decoded(s) == s,
{
    lemma_percent_decoded_without_escape(s);
}

/// Percent-decoding changes nothing where there is no escape.
proof fn lemma_percent_decoded_without_escape(s: Seq<char>)
    requires
        !has_escape(s),
    ensures
        percent_decoded(s) == s,
    decreases s.len(),
{
    if s.len() > 0 {
        let t = s.skip(1);
        assert(forall|i: int| escape_at(t, i) ==> escape_at(s, i + 1));
        lemma_percent_decoded_without_escape(t);
    }
}

/// Parsing gives back what a request line was written from: a line made of
/// a method, a target and a version parses to a request with that method
/// and version, the target as its path, and no query string. This holds
/// where the method and the target hold no space, and the target starts
/// with `/` and holds neither `?` nor a percent escape.
pub proof fn lemma_parse_round_trip(method: Seq<char>, target: Seq<char>, version: Seq<char>)
    requires
        !method.contains(' '),
        !target.contains(' '),
        !target.contains('?'),
        !has_escape(target),
        is_rooted(target),
    ensures
        parsed(method + seq![' '] + target + seq![' '] + version) == Ok::<RequestView, ParseError>(
            RequestView { method, path: target, query: Seq::<char>::empty(), version },
        ),
{
    lemma_request_line_parts(method, target, version);
    lemma_decoded_without_escape(target);
    lemma_first_index_is(target, '?', target.len() as int);
    assert(target.take(target.len() as int) =~= target);
}

} // verus!
