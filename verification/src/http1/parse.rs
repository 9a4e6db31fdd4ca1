//! Incremental parser for the head of an HTTP/1.x request: request line
//! (`METHOD SP URI SP HTTP/x.y`) followed by `name: value` header lines and
//! an empty line.
//!
//! Bytes are fed in as they are read; [`RequestBuilder::step`] performs one
//! unit of work on what is buffered and says whether to go on, to wait for
//! more bytes, or that the head is complete. Each step is specified by
//! [`step_spec`] over the abstract head ([`HeadModel`]) and the pending bytes.
use vstd::prelude::*;

use bytes::BytesMut;
use std::collections::VecDeque;
use http::header::{HeaderName, HeaderValue, InvalidHeaderName, InvalidHeaderValue};
use http::uri::InvalidUri;
use http::{Method, Uri};

use super::scan::{
    blank_end, find_blank, find_byte, find_first, find_first_blank, lemma_blank_end,
    lemma_blank_start_rev, lemma_find_blank, lemma_find_byte, trailing_blank_start,
    trim_blank_suffix,
};
use super::types::{
    ascii_lower, header_name_accepts, header_name_contents, header_name_from_bytes,
    header_value_contents, header_value_empty, header_value_from_bytes_mut, is_header_value,
    is_method_token, method_contents, method_from_bytes, request_headers, request_try_insert_header, RequestHead,
    request_method, request_new, request_set_method, request_set_uri, request_set_version,
    request_uri, request_version, uri_accepts, uri_from_bytes_mut, uri_parse,
};
use crate::buf::{bytes_mut_as_slice, bytes_mut_contents, bytes_mut_len, bytes_mut_split_off};
use crate::io::read_buf::ReadBuf;

verus! {

/// Errors of request-head parsing.
#[derive(Debug)]
pub enum ParseError {
    /// The method token is empty (the input starts with a space).
    Token,
    /// The URI token is empty (a space or tab where the URI should start).
    UriToken,
    /// The input stream ended before the head was complete.
    Eof,
    /// Reading the input stream failed.
    Io(std::io::Error),
    /// The method token is not a valid HTTP method.
    InvalidMethod,
    /// The URI token is not a valid URI.
    InvalidUri(InvalidUri),
    /// The request line does not carry a supported `HTTP/x.y` version.
    InvalidVersion,
    /// A bare line feed where `\r\n` was expected.
    Newline,
    /// A header line starts with `:`.
    HeaderName,
    /// The header name is not a valid header name.
    InvalidHeaderName(InvalidHeaderName),
    /// A header value is missing.
    HeaderValue,
    /// The header value holds bytes that a header value may not hold.
    InvalidHeaderValue(InvalidHeaderValue),
    /// Building the final request failed.
    HttpError(http::Error),
}

/// The variant of a [`ParseError`], without its payload.
#[derive(Debug, Clone, Copy, PartialEq, Eq, Structural)]
pub enum ParseErrorKind {
    Token,
    UriToken,
    Eof,
    Io,
    InvalidMethod,
    InvalidUri,
    InvalidVersion,
    Newline,
    HeaderName,
    InvalidHeaderName,
    HeaderValue,
    InvalidHeaderValue,
    HttpError,
}

impl ParseError {
    pub open spec fn spec_kind(&self) -> ParseErrorKind {
        match self {
            ParseError::Token => ParseErrorKind::Token,
            ParseError::UriToken => ParseErrorKind::UriToken,
            ParseError::Eof => ParseErrorKind::Eof,
            ParseError::Io(_) => ParseErrorKind::Io,
            ParseError::InvalidMethod => ParseErrorKind::InvalidMethod,
            ParseError::InvalidUri(_) => ParseErrorKind::InvalidUri,
            ParseError::InvalidVersion => ParseErrorKind::InvalidVersion,
            ParseError::Newline => ParseErrorKind::Newline,
            ParseError::HeaderName => ParseErrorKind::HeaderName,
            ParseError::InvalidHeaderName(_) => ParseErrorKind::InvalidHeaderName,
            ParseError::HeaderValue => ParseErrorKind::HeaderValue,
            ParseError::InvalidHeaderValue(_) => ParseErrorKind::InvalidHeaderValue,
            ParseError::HttpError(_) => ParseErrorKind::HttpError,
        }
    }

    /// The variant of this error.
    pub fn kind(&self) -> (k: ParseErrorKind)
        ensures
            k == self.spec_kind(),
    {
        match self {
            ParseError::Token => ParseErrorKind::Token,
            ParseError::UriToken => ParseErrorKind::UriToken,
            ParseError::Eof => ParseErrorKind::Eof,
            ParseError::Io(_) => ParseErrorKind::Io,
            ParseError::InvalidMethod => ParseErrorKind::InvalidMethod,
            ParseError::InvalidUri(_) => ParseErrorKind::InvalidUri,
            ParseError::InvalidVersion => ParseErrorKind::InvalidVersion,
            ParseError::Newline => ParseErrorKind::Newline,
            ParseError::HeaderName => ParseErrorKind::HeaderName,
            ParseError::InvalidHeaderName(_) => ParseErrorKind::InvalidHeaderName,
            ParseError::HeaderValue => ParseErrorKind::HeaderValue,
            ParseError::InvalidHeaderValue(_) => ParseErrorKind::InvalidHeaderValue,
            ParseError::HttpError(_) => ParseErrorKind::HttpError,
        }
    }
}

impl From<std::io::Error> for ParseError {
    fn from(err: std::io::Error) -> (r: ParseError)
        ensures
            r == ParseError::Io(err),
    {
        ParseError::Io(err)
    }
}

impl vstd::std_specs::convert::FromSpecImpl<std::io::Error> for ParseError {
    open spec fn obeys_from_spec() -> bool {
        true
    }

    open spec fn from_spec(err: std::io::Error) -> ParseError {
        ParseError::Io(err)
    }
}

impl From<InvalidUri> for ParseError {
    fn from(err: InvalidUri) -> (r: ParseError)
        ensures
            r == ParseError::InvalidUri(err),
    {
        ParseError::InvalidUri(err)
    }
}

impl vstd::std_specs::convert::FromSpecImpl<InvalidUri> for ParseError {
    open spec fn obeys_from_spec() -> bool {
        true
    }

    open spec fn from_spec(err: InvalidUri) -> ParseError {
        ParseError::InvalidUri(err)
    }
}

impl From<InvalidHeaderName> for ParseError {
    fn from(err: InvalidHeaderName) -> (r: ParseError)
        ensures
            r == ParseError::InvalidHeaderName(err),
    {
        ParseError::InvalidHeaderName(err)
    }
}

impl vstd::std_specs::convert::FromSpecImpl<InvalidHeaderName> for ParseError {
    open spec fn obeys_from_spec() -> bool {
        true
    }

    open spec fn from_spec(err: InvalidHeaderName) -> ParseError {
        ParseError::InvalidHeaderName(err)
    }
}

impl From<InvalidHeaderValue> for ParseError {
    fn from(err: InvalidHeaderValue) -> (r: ParseError)
        ensures
            r == ParseError::InvalidHeaderValue(err),
    {
        ParseError::InvalidHeaderValue(err)
    }
}

impl vstd::std_specs::convert::FromSpecImpl<InvalidHeaderValue> for ParseError {
    open spec fn obeys_from_spec() -> bool {
        true
    }

    open spec fn from_spec(err: InvalidHeaderValue) -> ParseError {
        ParseError::InvalidHeaderValue(err)
    }
}

impl From<http::Error> for ParseError {
    fn from(err: http::Error) -> (r: ParseError)
        ensures
            r == ParseError::HttpError(err),
    {
        ParseError::HttpError(err)
    }
}

impl vstd::std_specs::convert::FromSpecImpl<http::Error> for ParseError {
    open spec fn obeys_from_spec() -> bool {
        true
    }

    open spec fn from_spec(err: http::Error) -> ParseError {
        ParseError::HttpError(err)
    }
}

/// Parser configuration.
pub struct ParserConfig {
    header_parse_max_buf: usize,
}

impl ParserConfig {
    pub closed spec fn spec_header_parse_max_buf(&self) -> usize {
        self.header_parse_max_buf
    }

    /// The initial capacity of the buffer that holds the request head.
    pub fn header_parse_max_buf(&self) -> (n: usize)
        ensures
            n == self.spec_header_parse_max_buf(),
    {
        self.header_parse_max_buf
    }
}

impl Default for ParserConfig {
    fn default() -> (r: Self)
        ensures
            r.spec_header_parse_max_buf() == 2048,
    {
        ParserConfig { header_parse_max_buf: 2048 }
    }
}

/// HTTP protocol versions that a request line may name.
#[derive(Debug, Clone, Copy, PartialEq, Eq, Structural)]
pub enum HttpVersion {
    Http09,
    Http10,
    Http11,
    Http2,
    Http3,
}

/// What [`skip_newline`] finds at the front of a buffer.
#[derive(Debug, Clone, Copy, PartialEq, Eq, Structural)]
pub enum SkipNewLine {
    /// No line break.
    Absent,
    /// One `\r\n`.
    One,
    /// Two `\r\n` in a row: the end of the head.
    Break,
    /// A lone `\r` that may be the start of a line break.
    Incomplete,
}

/// What one call of the header parser achieved.
#[derive(Debug, Clone, Copy, PartialEq, Eq, Structural)]
pub enum ParseHeader {
    /// One header line was parsed.
    One,
    /// The empty line that ends the head was consumed.
    Last,
    /// More bytes are needed.
    Incomplete,
}

/// What one [`RequestBuilder::step`] says the caller should do next.
#[derive(Debug, Clone, Copy, PartialEq, Eq, Structural)]
pub enum ParseStatus {
    /// Step again while bytes are pending.
    Continue,
    /// Read more bytes before stepping again.
    NeedMore,
    /// The request head is complete.
    Done,
}

/// Result of scanning for one line break: `None` stands for a bare `\n`.
pub open spec fn newline_once(s: Seq<u8>) -> Option<SkipNewLine> {
    if s.len() > 1 {
        if s[0] == 13u8 && s[1] == 10u8 {
            Some(SkipNewLine::One)
        } else {
            Some(SkipNewLine::Absent)
        }
    } else if s.len() == 1 {
        if s[0] == 10u8 {
            Option::None
        } else if s[0] == 13u8 {
            Some(SkipNewLine::Incomplete)
        } else {
            Some(SkipNewLine::Absent)
        }
    } else {
        Some(SkipNewLine::Absent)
    }
}

/// Result of scanning for a line break and, after one, for a second.
pub open spec fn newline_twice(s: Seq<u8>) -> Option<SkipNewLine> {
    match newline_once(s) {
        Some(SkipNewLine::One) => match newline_once(s.skip(2)) {
            Some(SkipNewLine::One) => Some(SkipNewLine::Break),
            Option::None => Option::None,
            _ => Some(SkipNewLine::One),
        },
        other => other,
    }
}

/// The version named by the first eight bytes, `HTTP/x.y`.
pub open spec fn version_of(s: Seq<u8>) -> Option<HttpVersion> {
    if s.len() >= 8 && s[0] == 72u8 && s[1] == 84u8 && s[2] == 84u8 && s[3] == 80u8 && s[4]
        == 47u8 && s[6] == 46u8 {
        if s[5] == 48u8 && s[7] == 57u8 {
            Some(HttpVersion::Http09)
        } else if s[5] == 49u8 && s[7] == 48u8 {
            Some(HttpVersion::Http10)
        } else if s[5] == 49u8 && s[7] == 49u8 {
            Some(HttpVersion::Http11)
        } else if s[5] == 50u8 && s[7] == 48u8 {
            Some(HttpVersion::Http2)
        } else if s[5] == 51u8 && s[7] == 48u8 {
            Some(HttpVersion::Http3)
        } else {
            Option::None
        }
    } else {
        Option::None
    }
}

/// The request head parsed so far.
pub struct HeadModel {
    /// 0: method next, 1: URI next, 2: version next, 3: header lines next.
    pub state: int,
    pub method: Option<Seq<u8>>,
    pub uri: Option<Seq<u8>>,
    pub version: Option<HttpVersion>,
    /// Header lines in the order they were parsed: name bytes, value bytes.
    pub headers: Seq<(Seq<u8>, Seq<u8>)>,
}

/// The head before any byte was parsed.
pub open spec fn initial_head() -> HeadModel {
    HeadModel {
        state: 0,
        method: Option::None,
        uri: Option::None,
        version: Option::None,
        headers: Seq::empty(),
    }
}

/// The outcome of one step: the status and the new head and pending bytes,
/// or a failure.
pub enum StepSpec {
    Next(ParseStatus, HeadModel, Seq<u8>),
    Fail(ParseErrorKind),
}

/// Step while the method is next.
pub open spec fn method_step(m: HeadModel, b: Seq<u8>) -> StepSpec {
    let k = find_byte(b, 32u8, 0);
    if k == 0 {
        StepSpec::Fail(ParseErrorKind::Token)
    } else if k == b.len() {
        StepSpec::Next(ParseStatus::NeedMore, m, b)
    } else if !is_method_token(b.take(k)) {
        StepSpec::Fail(ParseErrorKind::InvalidMethod)
    } else {
        let r = b.skip(k);
        StepSpec::Next(
            ParseStatus::Continue,
            HeadModel { state: 1, method: Some(b.take(k)), ..m },
            r.skip(blank_end(r, 0)),
        )
    }
}

/// Step while the URI is next.
pub open spec fn uri_step(m: HeadModel, b: Seq<u8>) -> StepSpec {
    let k = find_blank(b, 0);
    if k == 0 {
        StepSpec::Fail(ParseErrorKind::UriToken)
    } else if k == b.len() {
        StepSpec::Next(ParseStatus::NeedMore, m, b)
    } else if !uri_accepts(b.take(k)) {
        StepSpec::Fail(ParseErrorKind::InvalidUri)
    } else {
        let r = b.skip(k);
        StepSpec::Next(
            ParseStatus::Continue,
            HeadModel { state: 2, uri: Some(b.take(k)), ..m },
            r.skip(blank_end(r, 0)),
        )
    }
}

/// Step while the version is next.
pub open spec fn version_step(m: HeadModel, b: Seq<u8>) -> StepSpec {
    if b.len() >= 8 {
        match version_of(b) {
            Some(v) => StepSpec::Next(
                ParseStatus::Continue,
                HeadModel { state: 3, version: Some(v), ..m },
                b.skip(8),
            ),
            Option::None => StepSpec::Fail(ParseErrorKind::InvalidVersion),
        }
    } else {
        StepSpec::Next(ParseStatus::NeedMore, m, b)
    }
}

/// One `name: value` line, after the line break before it was handled.
pub open spec fn header_line(m: HeadModel, d: Seq<u8>) -> StepSpec {
    let k = find_byte(d, 58u8, 0);
    if k == d.len() {
        StepSpec::Next(ParseStatus::NeedMore, m, d)
    } else if k == 0 {
        StepSpec::Fail(ParseErrorKind::HeaderName)
    } else if !header_name_accepts(d.take(k)) {
        StepSpec::Fail(ParseErrorKind::InvalidHeaderName)
    } else {
        let e = d.skip(k + 1);
        let f = e.skip(blank_end(e, 0));
        let v = find_byte(f, 13u8, 0);
        if v == f.len() {
            StepSpec::Next(ParseStatus::NeedMore, m, d)
        } else if v == 0 {
            StepSpec::Next(
                ParseStatus::Continue,
                HeadModel { headers: m.headers.push((d.take(k), Seq::empty())), ..m },
                f,
            )
        } else {
            let val = trim_blank_suffix(f.take(v));
            if !is_header_value(val) {
                StepSpec::Fail(ParseErrorKind::InvalidHeaderValue)
            } else {
                StepSpec::Next(
                    ParseStatus::Continue,
                    HeadModel { headers: m.headers.push((d.take(k), val)), ..m },
                    f.skip(v),
                )
            }
        }
    }
}

/// A header line that has not all arrived leaves the pending bytes `b` as
/// they were, the line break before it included.
pub open spec fn line_or_wait(s: StepSpec, b: Seq<u8>) -> StepSpec {
    match s {
        StepSpec::Next(ParseStatus::NeedMore, h, _) => StepSpec::Next(ParseStatus::NeedMore, h, b),
        other => other,
    }
}

/// Step while header lines are next.
pub open spec fn header_step(m: HeadModel, b: Seq<u8>) -> StepSpec {
    let c = b.skip(blank_end(b, 0));
    match newline_twice(c) {
        Option::None => StepSpec::Fail(ParseErrorKind::Newline),
        Some(SkipNewLine::Break) => StepSpec::Next(ParseStatus::Done, m, c.skip(4)),
        Some(SkipNewLine::Incomplete) => StepSpec::Next(ParseStatus::NeedMore, m, b),
        Some(SkipNewLine::One) => line_or_wait(header_line(m, c.skip(2)), b),
        Some(SkipNewLine::Absent) => line_or_wait(header_line(m, c), b),
    }
}

/// One step of the parser on head `m` with pending bytes `b`.
pub open spec fn step_spec(m: HeadModel, b: Seq<u8>) -> StepSpec {
    if m.state == 0 {
        method_step(m, b)
    } else if m.state == 1 {
        uri_step(m, b)
    } else if m.state == 2 {
        version_step(m, b)
    } else {
        header_step(m, b)
    }
}

/// The outcome of stepping on head `m` with pending bytes `b` until a step
/// asks for more bytes, completes the head or fails, or no byte is left.
pub open spec fn drive_spec(m: HeadModel, b: Seq<u8>) -> StepSpec
    decreases b.len(),
{
    if b.len() == 0 {
        StepSpec::Next(ParseStatus::NeedMore, m, b)
    } else {
        match step_spec(m, b) {
            StepSpec::Next(ParseStatus::Continue, h, rest) => if rest.len() < b.len() {
                drive_spec(h, rest)
            } else {
                StepSpec::Next(ParseStatus::Continue, h, rest)
            },
            other => other,
        }
    }
}

/// The header map of a parsed head: the header lines in order, each name
/// in small letters mapped to its value, a later line replacing an earlier
/// one of the same name.
pub open spec fn header_map(hs: Seq<(Seq<u8>, Seq<u8>)>) -> Map<Seq<u8>, Seq<u8>>
    decreases hs.len(),
{
    if hs.len() == 0 {
        Map::empty()
    } else {
        header_map(hs.drop_last()).insert(ascii_lower(hs.last().0), hs.last().1)
    }
}

/// `rest` is what is left of `b` once some bytes were taken off its front.
pub open spec fn is_rest_of(rest: Seq<u8>, b: Seq<u8>) -> bool {
    rest.len() <= b.len() && rest == b.skip(b.len() - rest.len())
}

/// Whether the head `h` extends `m`: the header lines of `m` come first, in
/// the same order.
pub open spec fn head_extends(h: HeadModel, m: HeadModel) -> bool {
    h.headers.len() >= m.headers.len() && h.headers.take(m.headers.len() as int) == m.headers
}

proof fn lemma_skip_is_rest(b: Seq<u8>, n: int)
    requires
        0 <= n <= b.len(),
    ensures
        is_rest_of(b.skip(n), b),
{
    assert(b.skip(n) =~= b.skip(b.len() - b.skip(n).len()));
}

proof fn lemma_rest_trans(a: Seq<u8>, b: Seq<u8>, c: Seq<u8>)
    requires
        is_rest_of(a, b),
        is_rest_of(b, c),
    ensures
        is_rest_of(a, c),
{
    assert(a =~= c.skip(c.len() - a.len()));
}

proof fn lemma_header_line_progress(m: HeadModel, d: Seq<u8>)
    ensures
        match header_line(m, d) {
            StepSpec::Next(st, h, rest) => is_rest_of(rest, d) && h.state == m.state
                && head_extends(h, m) && st != ParseStatus::Done && (st == ParseStatus::Continue
                ==> rest.len() < d.len()),
            _ => true,
        },
{
    lemma_find_byte(d, 58u8, 0);
    let k = find_byte(d, 58u8, 0);
    assert(d.skip(d.len() - d.len()) =~= d);
    assert(m.headers.take(m.headers.len() as int) =~= m.headers);
    if 0 < k < d.len() {
        let e = d.skip(k + 1);
        lemma_skip_is_rest(d, k + 1);
        lemma_blank_end(e, 0);
        let f = e.skip(blank_end(e, 0));
        lemma_skip_is_rest(e, blank_end(e, 0));
        lemma_rest_trans(f, e, d);
        lemma_find_byte(f, 13u8, 0);
        let v = find_byte(f, 13u8, 0);
        if 0 < v < f.len() {
            lemma_skip_is_rest(f, v);
            lemma_rest_trans(f.skip(v), f, d);
        }
        let val = trim_blank_suffix(f.take(v));
        assert(m.headers.push((d.take(k), Seq::empty())).take(m.headers.len() as int)
            =~= m.headers);
        assert(m.headers.push((d.take(k), val)).take(m.headers.len() as int) =~= m.headers);
    }
}

/// Every step of the parser takes bytes off the front of what is pending
/// and never puts any back, and a step that says to go on takes at least
/// one byte, so stepping while bytes are pending ends; a step that asks for
/// more bytes takes none and leaves the head as it was; a step keeps the
/// phase or moves to the next one; it keeps the header lines parsed so
/// far; and it reports the head complete only while header lines are next,
/// leaving the head as it was.
pub proof fn lemma_step_progress(m: HeadModel, b: Seq<u8>)
    ensures
        match step_spec(m, b) {
            StepSpec::Next(st, h, rest) => {
                &&& is_rest_of(rest, b)
                &&& st == ParseStatus::Continue ==> rest.len() < b.len()
                &&& st == ParseStatus::NeedMore ==> rest == b && h == m
                &&& h.state == m.state || h.state == m.state + 1
                &&& head_extends(h, m)
                &&& st == ParseStatus::Done ==> m.state != 0 && m.state != 1 && m.state != 2
                    && h == m
            },
            _ => true,
        },
{
    assert(b.skip(b.len() - b.len()) =~= b);
    assert(m.headers.take(m.headers.len() as int) =~= m.headers);
    lemma_blank_end(b, 0);
    lemma_skip_is_rest(b, blank_end(b, 0));
    if m.state == 0 {
        lemma_find_byte(b, 32u8, 0);
        let k = find_byte(b, 32u8, 0);
        if 0 < k < b.len() {
            let r = b.skip(k);
            lemma_skip_is_rest(b, k);
            lemma_blank_end(r, 0);
            lemma_skip_is_rest(r, blank_end(r, 0));
            lemma_rest_trans(r.skip(blank_end(r, 0)), r, b);
        }
    } else if m.state == 1 {
        lemma_find_blank(b, 0);
        let k = find_blank(b, 0);
        if 0 < k < b.len() {
            let r = b.skip(k);
            lemma_skip_is_rest(b, k);
            lemma_blank_end(r, 0);
            lemma_skip_is_rest(r, blank_end(r, 0));
            lemma_rest_trans(r.skip(blank_end(r, 0)), r, b);
        }
    } else if m.state == 2 {
        if b.len() >= 8 {
            lemma_skip_is_rest(b, 8);
        }
    } else {
        let c = b.skip(blank_end(b, 0));
        match newline_twice(c) {
            Some(SkipNewLine::Break) => {
                assert(c.len() >= 4);
                lemma_skip_is_rest(c, 4);
                lemma_rest_trans(c.skip(4), c, b);
            },
            Some(SkipNewLine::One) => {
                lemma_skip_is_rest(c, 2);
                lemma_rest_trans(c.skip(2), c, b);
                lemma_header_line_progress(m, c.skip(2));
                if let StepSpec::Next(st, h, rest) = header_line(m, c.skip(2)) {
                    lemma_rest_trans(rest, c.skip(2), b);
                }
            },
            Some(SkipNewLine::Absent) => {
                lemma_header_line_progress(m, c);
                if let StepSpec::Next(st, h, rest) = header_line(m, c) {
                    lemma_rest_trans(rest, c, b);
                }
            },
            _ => {},
        }
    }
}

/// Exactly the parts of a head that its phase says were parsed are
/// present: the method from phase 1 on, the URI from phase 2 on, the
/// version in phase 3.
pub open spec fn head_consistent(m: HeadModel) -> bool {
    &&& 0 <= m.state <= 3
    &&& m.method is Some <==> m.state >= 1
    &&& m.uri is Some <==> m.state >= 2
    &&& m.version is Some <==> m.state >= 3
}

/// The parser starts from a consistent head and every step keeps it
/// consistent; a method, URI or version, once parsed, is never changed.
pub proof fn lemma_step_keeps_head(m: HeadModel, b: Seq<u8>)
    requires
        head_consistent(m),
    ensures
        head_consistent(initial_head()),
        match step_spec(m, b) {
            StepSpec::Next(_, h, _) => {
                &&& head_consistent(h)
                &&& m.method is Some ==> h.method == m.method
                &&& m.uri is Some ==> h.uri == m.uri
                &&& m.version is Some ==> h.version == m.version
            },
            _ => true,
        },
{
    if m.state >= 3 {
        let c = b.skip(blank_end(b, 0));
        match newline_twice(c) {
            Some(SkipNewLine::One) => {
                lemma_header_line_keeps_head(m, c.skip(2));
            },
            Some(SkipNewLine::Absent) => {
                lemma_header_line_keeps_head(m, c);
            },
            _ => {},
        }
    }
}

proof fn lemma_header_line_keeps_head(m: HeadModel, d: Seq<u8>)
    ensures
        match header_line(m, d) {
            StepSpec::Next(_, h, _) => h.state == m.state && h.method == m.method && h.uri
                == m.uri && h.version == m.version,
            _ => true,
        },
{
}

/// Splits off the method token: the bytes before the first space.
/// Returns `None` when there is no space yet.
pub fn parse_token(bytes: &[u8]) -> (r: Result<Option<&[u8]>, ParseError>)
    requires
        bytes@.len() > 0,
    ensures
        ({
            let k = find_byte(bytes@, 32u8, 0);
            &&& k == 0 ==> (r matches Err(ParseError::Token))
            &&& k == bytes@.len() ==> (r matches Ok(Option::None))
            &&& 0 < k < bytes@.len() ==> (r matches Ok(Some(t)) && t@ == bytes@.take(k))
        }),
{
    proof {
        lemma_find_byte(bytes@, 32u8, 0);
    }
    let k = find_first(bytes, 32u8);
    if k == 0 {
        return Err(ParseError::Token);
    }
    if k == bytes.len() {
        return Ok(Option::None);
    }
    let t = &bytes[0..k];
    assert(t@ =~= bytes@.take(k as int));
    Ok(Some(t))
}

/// Number of leading spaces and tabs of `buf`.
pub fn skip_spaces(buf: &[u8]) -> (n: usize)
    ensures
        n == blank_end(buf@, 0),
{
    let mut i: usize = 0;
    while i < buf.len()
        invariant
            i <= buf@.len(),
            blank_end(buf@, 0) == blank_end(buf@, i as int),
        decreases buf@.len() - i,
    {
        if buf[i] != 32u8 && buf[i] != 9u8 {
            return i;
        }
        i += 1;
    }
    i
}

/// Drops the trailing spaces and tabs of `buf`, unless it holds nothing
/// else.
pub fn trim_suffix_spaces(buf: &mut BytesMut)
    ensures
        bytes_mut_contents(*final(buf)) == trim_blank_suffix(bytes_mut_contents(*old(buf))),
{
    let ghost s = bytes_mut_contents(*buf);
    let k = trailing_blank_start(bytes_mut_as_slice(buf));
    proof {
        lemma_blank_start_rev(s, s.len() as int);
    }
    if k > 0 && k < bytes_mut_len(buf) {
        let _tail = bytes_mut_split_off(buf, k);
    }
    assert(k == s.len() ==> s.take(k as int) =~= s);
}

/// Looks for one line break at the front of `buf`.
pub fn _skip_newline(buf: &[u8]) -> (r: Result<SkipNewLine, ParseError>)
    ensures
        match newline_once(buf@) {
            Some(k) => r matches Ok(x) && x == k,
            Option::None => r matches Err(ParseError::Newline),
        },
{
    if buf.len() > 1 {
        if buf[0] == 13u8 && buf[1] == 10u8 {
            return Ok(SkipNewLine::One);
        }
    } else if buf.len() > 0 {
        if buf[0] == 10u8 {
            return Err(ParseError::Newline);
        } else if buf[0] == 13u8 {
            return Ok(SkipNewLine::Incomplete);
        }
    }
    Ok(SkipNewLine::Absent)
}

/// Looks for a line break at the front of `buf` and, after one, for a
/// second; two in a row are a [`SkipNewLine::Break`].
pub fn skip_newline(buf: &[u8]) -> (r: Result<SkipNewLine, ParseError>)
    ensures
        match newline_twice(buf@) {
            Some(k) => r matches Ok(x) && x == k,
            Option::None => r matches Err(ParseError::Newline),
        },
{
    match _skip_newline(buf)? {
        SkipNewLine::One => {
            let rest = &buf[2..buf.len()];
            assert(rest@ =~= buf@.skip(2));
            match _skip_newline(rest)? {
                SkipNewLine::One => Ok(SkipNewLine::Break),
                _ => Ok(SkipNewLine::One),
            }
        },
        status => Ok(status),
    }
}

/// Splits off the URI token: the bytes before the first space or tab.
/// Returns `None` when there is none yet.
pub fn parse_uri(buf: &[u8]) -> (r: Result<Option<&[u8]>, ParseError>)
    requires
        buf@.len() > 0,
    ensures
        ({
            let k = find_blank(buf@, 0);
            &&& k == 0 ==> (r matches Err(ParseError::UriToken))
            &&& k == buf@.len() ==> (r matches Ok(Option::None))
            &&& 0 < k < buf@.len() ==> (r matches Ok(Some(t)) && t@ == buf@.take(k))
        }),
{
    proof {
        lemma_find_blank(buf@, 0);
    }
    let k = find_first_blank(buf);
    if k == 0 {
        return Err(ParseError::UriToken);
    }
    if k == buf.len() {
        return Ok(Option::None);
    }
    let t = &buf[0..k];
    assert(t@ =~= buf@.take(k as int));
    Ok(Some(t))
}

/// Reads the `HTTP/x.y` version at the front of `buf`; `None` while fewer
/// than eight bytes are there.
pub fn parse_version(buf: &[u8]) -> (r: Result<Option<HttpVersion>, ParseError>)
    ensures
        buf@.len() < 8 ==> (r matches Ok(Option::None)),
        buf@.len() >= 8 ==> match version_of(buf@) {
            Some(v) => r matches Ok(Some(x)) && x == v,
            Option::None => r matches Err(ParseError::InvalidVersion),
        },
{
    if buf.len() >= 8 {
        if buf[0] == 72u8 && buf[1] == 84u8 && buf[2] == 84u8 && buf[3] == 80u8 && buf[4] == 47u8
            && buf[6] == 46u8 {
            let major = buf[5];
            let minor = buf[7];
            if major == 48u8 && minor == 57u8 {
                return Ok(Some(HttpVersion::Http09));
            } else if major == 49u8 && minor == 48u8 {
                return Ok(Some(HttpVersion::Http10));
            } else if major == 49u8 && minor == 49u8 {
                return Ok(Some(HttpVersion::Http11));
            } else if major == 50u8 && minor == 48u8 {
                return Ok(Some(HttpVersion::Http2));
            } else if major == 51u8 && minor == 48u8 {
                return Ok(Some(HttpVersion::Http3));
            }
        }
        return Err(ParseError::InvalidVersion);
    }
    Ok(Option::None)
}

/// The parser's record of the request head.
pub struct RequestParsing {
    state: usize,
    method: Option<Method>,
    uri: Option<Uri>,
    version: Option<HttpVersion>,
    /// Header lines in parse order.
    headers: Vec<(HeaderName, HeaderValue)>,
    head: Ghost<HeadModel>,
}

impl RequestParsing {
    pub closed spec fn view(&self) -> HeadModel {
        self.head@
    }

    pub closed spec fn wf(&self) -> bool {
        let h = self.head@;
        &&& self.state as int == h.state
        &&& self.state <= 3
        &&& self.method.is_some() == h.method.is_some()
        &&& self.uri.is_some() == h.uri.is_some()
        &&& self.version == h.version
        &&& (self.state >= 1 ==> h.method.is_some())
        &&& (self.state >= 2 ==> h.uri.is_some())
        &&& (self.state >= 3 ==> h.version.is_some())
        &&& (self.method matches Some(mm) ==> method_contents(mm) == h.method->Some_0)
        &&& (self.uri matches Some(u) ==> u == uri_parse(h.uri->Some_0))
        &&& self.headers@.len() == h.headers.len()
        &&& forall|i: int|
            0 <= i < h.headers.len() ==> header_value_contents(#[trigger] self.headers@[i].1)
                == h.headers[i].1 && header_name_contents(self.headers@[i].0) == ascii_lower(
                h.headers[i].0,
            )
    }

    fn new() -> (r: Self)
        ensures
            r.wf(),
            r.view() == initial_head(),
    {
        RequestParsing {
            state: 0,
            method: Option::None,
            uri: Option::None,
            version: Option::None,
            headers: Vec::new(),
            head: Ghost(initial_head()),
        }
    }
}

/// Parses the head of a request read from a stream of type `S`.
pub struct RequestBuilder<S> {
    debug_info: String,
    parser_config: ParserConfig,
    read_buf: ReadBuf,
    stream: S,
    parsing: RequestParsing,
}

impl<S> RequestBuilder<S> {
    /// The head parsed so far.
    pub closed spec fn head(&self) -> HeadModel {
        self.parsing.view()
    }

    /// The bytes that were fed and not yet consumed.
    pub closed spec fn pending(&self) -> Seq<u8> {
        self.read_buf.view()
    }

    pub closed spec fn wf(&self) -> bool {
        self.parsing.wf()
    }

    pub closed spec fn spec_stream(&self) -> S {
        self.stream
    }

    pub closed spec fn spec_config(&self) -> ParserConfig {
        self.parser_config
    }

    /// The label given at creation, used in log messages.
    pub closed spec fn spec_debug_info(&self) -> Seq<char> {
        self.debug_info@
    }

    /// Creates a parser over `stream` with the default configuration.
    pub fn new(debug_info: &str, stream: S) -> (r: Self)
        ensures
            r.wf(),
            r.head() == initial_head(),
            r.pending() == Seq::<u8>::empty(),
            r.spec_stream() == stream,
            r.spec_config().spec_header_parse_max_buf() == 2048,
            r.spec_debug_info() == debug_info@,
    {
        Self::new_with(debug_info, stream, ParserConfig::default())
    }

    /// Creates a parser over `stream` with the given configuration.
    pub fn new_with(debug_info: &str, stream: S, parser_config: ParserConfig) -> (r: Self)
        ensures
            r.wf(),
            r.head() == initial_head(),
            r.pending() == Seq::<u8>::empty(),
            r.spec_stream() == stream,
            r.spec_config() == parser_config,
            r.spec_debug_info() == debug_info@,
    {
        let read_buf = ReadBuf::with_capacity(parser_config.header_parse_max_buf());
        RequestBuilder {
            debug_info: debug_info.to_owned(),
            parser_config,
            read_buf,
            stream,
            parsing: RequestParsing::new(),
        }
    }

    /// Appends bytes read from the stream to the pending bytes.
    pub fn feed(&mut self, data: &[u8])
        ensures
            final(self).wf() == old(self).wf(),
            final(self).head() == old(self).head(),
            final(self).pending() == old(self).pending() + data@,
            final(self).spec_stream() == old(self).spec_stream(),
    {
        self.read_buf.filled_from(data);
    }

    /// The pending bytes.
    pub fn pending_bytes(&self) -> (s: &[u8])
        ensures
            s@ == self.pending(),
    {
        self.read_buf.chunk()
    }

    /// The stream the request is read from.
    pub fn stream_mut(&mut self) -> (s: &mut S)
        ensures
            *s == old(self).spec_stream(),
            final(self).wf() == old(self).wf(),
            final(self).head() == old(self).head(),
            final(self).pending() == old(self).pending(),
            final(self).spec_stream() == *final(s),
    {
        &mut self.stream
    }

    /// The label given at creation.
    pub fn debug_info(&self) -> (r: &str)
        ensures
            r@ == self.spec_debug_info(),
    {
        self.debug_info.as_str()
    }

    /// The parsed method, once there is one.
    pub fn method(&self) -> (r: Option<&Method>)
        requires
            self.wf(),
        ensures
            r.is_some() == self.head().method.is_some(),
            r matches Some(m) ==> method_contents(*m) == self.head().method->Some_0,
    {
        self.parsing.method.as_ref()
    }

    /// The parsed URI, once there is one.
    pub fn uri(&self) -> (r: Option<&Uri>)
        requires
            self.wf(),
        ensures
            r.is_some() == self.head().uri.is_some(),
            r matches Some(u) ==> *u == uri_parse(self.head().uri->Some_0),
    {
        self.parsing.uri.as_ref()
    }

    /// The parsed version, once there is one.
    pub fn version(&self) -> (r: Option<HttpVersion>)
        requires
            self.wf(),
        ensures
            r == self.head().version,
    {
        self.parsing.version
    }

    /// The header lines parsed so far, in order.
    pub fn headers(&self) -> (r: &[(HeaderName, HeaderValue)])
        requires
            self.wf(),
        ensures
            r@.len() == self.head().headers.len(),
            forall|i: int|
                0 <= i < r@.len() ==> header_value_contents(#[trigger] r@[i].1)
                    == self.head().headers[i].1 && header_name_contents(r@[i].0) == ascii_lower(
                    self.head().headers[i].0,
                ),
    {
        self.parsing.headers.as_slice()
    }

    fn skip_spaces(&mut self)
        ensures
            final(self).pending() == old(self).pending().skip(blank_end(old(self).pending(), 0)),
            final(self).parsing == old(self).parsing,
            final(self).stream == old(self).stream,
    {
        let n = skip_spaces(self.read_buf.chunk());
        proof {
            lemma_blank_end(self.pending(), 0);
        }
        self.read_buf.advance(n);
    }

    fn parse_method(&mut self) -> (r: Result<bool, ParseError>)
        requires
            old(self).wf(),
            old(self).head().state == 0,
            old(self).pending().len() > 0,
        ensures
            final(self).stream == old(self).stream,
            match method_step(old(self).head(), old(self).pending()) {
                StepSpec::Fail(k) => r matches Err(e) && e.spec_kind() == k,
                StepSpec::Next(st, h, b) => r matches Ok(adv) && final(self).wf() && final(self).head()
                    == h && (adv <==> st == ParseStatus::Continue) && (if adv {
                    final(self).pending().skip(blank_end(final(self).pending(), 0)) == b
                } else {
                    final(self).pending() == b
                }),
            },
    {
        let ghost b = self.pending();
        proof {
            lemma_find_byte(b, 32u8, 0);
        }
        let token = parse_token(self.read_buf.chunk())?;
        match token {
            Option::None => Ok(false),
            Some(token) => {
                let n = token.len();
                match method_from_bytes(token) {
                    Ok(method) => {
                        self.parsing.method = Some(method);
                        self.parsing.state = 1;
                        self.parsing.head = Ghost(
                            HeadModel { state: 1, method: Some(b.take(n as int)), ..self.parsing.head@ },
                        );
                        self.read_buf.advance(n);
                        Ok(true)
                    },
                    Err(_) => Err(ParseError::InvalidMethod),
                }
            },
        }
    }

    fn parse_uri(&mut self) -> (r: Result<bool, ParseError>)
        requires
            old(self).wf(),
            old(self).head().state == 1,
            old(self).pending().len() > 0,
        ensures
            final(self).stream == old(self).stream,
            match uri_step(old(self).head(), old(self).pending()) {
                StepSpec::Fail(k) => r matches Err(e) && e.spec_kind() == k,
                StepSpec::Next(st, h, b) => r matches Ok(adv) && final(self).wf() && final(self).head()
                    == h && (adv <==> st == ParseStatus::Continue) && (if adv {
                    final(self).pending().skip(blank_end(final(self).pending(), 0)) == b
                } else {
                    final(self).pending() == b
                }),
            },
    {
        let ghost b = self.pending();
        proof {
            lemma_find_blank(b, 0);
        }
        let token = parse_uri(self.read_buf.chunk())?;
        match token {
            Option::None => Ok(false),
            Some(token) => {
                let n = token.len();
                let token_buf = self.read_buf.split_to(n);
                match uri_from_bytes_mut(token_buf) {
                    Ok(uri) => {
                        self.parsing.uri = Some(uri);
                        self.parsing.state = 2;
                        self.parsing.head = Ghost(
                            HeadModel { state: 2, uri: Some(b.take(n as int)), ..self.parsing.head@ },
                        );
                        Ok(true)
                    },
                    Err(err) => Err(ParseError::InvalidUri(err)),
                }
            },
        }
    }

    fn parse_version(&mut self) -> (r: Result<bool, ParseError>)
        requires
            old(self).wf(),
            old(self).head().state == 2,
        ensures
            final(self).stream == old(self).stream,
            match version_step(old(self).head(), old(self).pending()) {
                StepSpec::Fail(k) => r matches Err(e) && e.spec_kind() == k,
                StepSpec::Next(st, h, b) => r matches Ok(adv) && (adv <==> st
                    == ParseStatus::Continue) && final(self).wf() && final(self).head() == h
                    && final(self).pending() == b,
            },
    {
        let token = parse_version(self.read_buf.chunk())?;
        match token {
            Option::None => Ok(false),
            Some(v) => {
                self.read_buf.advance(8);
                self.parsing.version = Some(v);
                self.parsing.state = 3;
                self.parsing.head = Ghost(
                    HeadModel { state: 3, version: Some(v), ..self.parsing.head@ },
                );
                Ok(true)
            },
        }
    }

    /// Parses the header line that starts `start` bytes into the pending
    /// bytes. A line whose value has no `\r` after it yet is incomplete and
    /// leaves everything as it was; a complete line is taken together with
    /// the `start` bytes before it.
    fn parse_header_line(&mut self, start: usize) -> (r: Result<ParseHeader, ParseError>)
        requires
            old(self).wf(),
            old(self).head().state == 3,
            start <= old(self).pending().len(),
        ensures
            final(self).stream == old(self).stream,
            match line_or_wait(
                header_line(old(self).head(), old(self).pending().skip(start as int)),
                old(self).pending(),
            ) {
                StepSpec::Fail(k) => r matches Err(e) && e.spec_kind() == k,
                StepSpec::Next(st, h, b) => r matches Ok(p) && final(self).wf() && final(self).head()
                    == h && final(self).pending() == b && (p == ParseHeader::One <==> st
                    == ParseStatus::Continue) && (p == ParseHeader::Incomplete <==> st
                    == ParseStatus::NeedMore) && p != ParseHeader::Last,
            },
    {
        let ghost whole = self.pending();
        let ghost d = whole.skip(start as int);
        proof {
            lemma_find_byte(d, 58u8, 0);
        }
        let k = {
            let chunk = self.read_buf.chunk();
            let line = &chunk[start..chunk.len()];
            assert(line@ =~= d);
            find_first(line, 58u8)
        };
        if k == self.read_buf.len() - start {
            return Ok(ParseHeader::Incomplete);
        }
        if k == 0 {
            return Err(ParseError::HeaderName);
        }
        let name = {
            let chunk = self.read_buf.chunk();
            let name_slice = &chunk[start..start + k];
            assert(name_slice@ =~= d.take(k as int));
            match header_name_from_bytes(name_slice) {
                Ok(name) => name,
                Err(err) => return Err(ParseError::InvalidHeaderName(err)),
            }
        };
        let ghost e = d.skip(k + 1);
        let (s, v) = {
            let chunk = self.read_buf.chunk();
            let rest = &chunk[start + k + 1..chunk.len()];
            assert(rest@ =~= e);
            let s = skip_spaces(rest);
            proof {
                lemma_blank_end(e, 0);
            }
            let f = &rest[s..rest.len()];
            assert(f@ =~= e.skip(blank_end(e, 0)));
            proof {
                lemma_find_byte(f@, 13u8, 0);
            }
            let v = find_first(f, 13u8);
            if v == f.len() {
                return Ok(ParseHeader::Incomplete);
            }
            (s, v)
        };
        self.read_buf.advance(start + k + 1 + s);
        let ghost f = self.pending();
        assert(f =~= e.skip(blank_end(e, 0)));
        let ghost val = if v == 0 {
            Seq::<u8>::empty()
        } else {
            trim_blank_suffix(f.take(v as int))
        };
        let value = if v == 0 {
            header_value_empty()
        } else {
            let mut value_buf = self.read_buf.split_to(v);
            trim_suffix_spaces(&mut value_buf);
            match header_value_from_bytes_mut(value_buf) {
                Ok(value) => value,
                Err(err) => return Err(ParseError::InvalidHeaderValue(err)),
            }
        };
        let ghost old_headers = self.parsing.headers@;
        self.parsing.headers.push((name, value));
        self.parsing.head = Ghost(
            HeadModel {
                headers: self.parsing.head@.headers.push((d.take(k as int), val)),
                ..self.parsing.head@
            },
        );
        proof {
            assert forall|i: int| 0 <= i < self.parsing.head@.headers.len() implies header_value_contents(
                #[trigger] self.parsing.headers@[i].1,
            ) == self.parsing.head@.headers[i].1 && header_name_contents(
                self.parsing.headers@[i].0,
            ) == ascii_lower(self.parsing.head@.headers[i].0) by {
                if i < old_headers.len() {
                    assert(self.parsing.headers@[i] == old_headers[i]);
                }
            }
        }
        Ok(ParseHeader::One)
    }

    fn parse_headers(&mut self) -> (r: Result<ParseHeader, ParseError>)
        requires
            old(self).wf(),
            old(self).head().state == 3,
        ensures
            final(self).stream == old(self).stream,
            match header_step(old(self).head(), old(self).pending()) {
                StepSpec::Fail(k) => r matches Err(e) && e.spec_kind() == k,
                StepSpec::Next(st, h, b) => r matches Ok(p) && final(self).wf() && final(self).head()
                    == h && final(self).pending() == b && (p == ParseHeader::One <==> st
                    == ParseStatus::Continue) && (p == ParseHeader::Incomplete <==> st
                    == ParseStatus::NeedMore) && (p == ParseHeader::Last <==> st
                    == ParseStatus::Done),
            },
    {
        let ghost b = self.pending();
        let (s, status) = {
            let chunk = self.read_buf.chunk();
            let s = skip_spaces(chunk);
            proof {
                lemma_blank_end(b, 0);
            }
            let c = &chunk[s..chunk.len()];
            assert(c@ =~= b.skip(s as int));
            (s, skip_newline(c))
        };
        match status {
            Err(err) => Err(err),
            Ok(SkipNewLine::Break) => {
                self.read_buf.advance(s + 4);
                assert(b.skip(s as int).skip(4) =~= b.skip(s + 4));
                Ok(ParseHeader::Last)
            },
            Ok(SkipNewLine::Incomplete) => Ok(ParseHeader::Incomplete),
            Ok(SkipNewLine::One) => {
                assert(b.skip(s as int).skip(2) =~= b.skip(s + 2));
                self.parse_header_line(s + 2)
            },
            Ok(SkipNewLine::Absent) => self.parse_header_line(s),
        }
    }

    /// Performs one unit of parsing on the pending bytes, as the step of
    /// the parse loop for the current state does: method, URI, version or
    /// one header line. A part that is not complete yet in the pending bytes
    /// asks for more bytes.
    pub fn step(&mut self) -> (r: Result<ParseStatus, ParseError>)
        requires
            old(self).wf(),
            old(self).pending().len() > 0,
        ensures
            final(self).spec_stream() == old(self).spec_stream(),
            match step_spec(old(self).head(), old(self).pending()) {
                StepSpec::Fail(k) => r matches Err(e) && e.spec_kind() == k,
                StepSpec::Next(st, h, b) => r matches Ok(x) && x == st && final(self).wf()
                    && final(self).head() == h && final(self).pending() == b,
            },
    {
        if self.parsing.state == 0 {
            match self.parse_method() {
                Err(err) => Err(err),
                Ok(true) => {
                    self.skip_spaces();
                    Ok(ParseStatus::Continue)
                },
                Ok(false) => Ok(ParseStatus::NeedMore),
            }
        } else if self.parsing.state == 1 {
            match self.parse_uri() {
                Err(err) => Err(err),
                Ok(true) => {
                    self.skip_spaces();
                    Ok(ParseStatus::Continue)
                },
                Ok(false) => Ok(ParseStatus::NeedMore),
            }
        } else if self.parsing.state == 2 {
            match self.parse_version() {
                Err(err) => Err(err),
                Ok(true) => Ok(ParseStatus::Continue),
                Ok(false) => Ok(ParseStatus::NeedMore),
            }
        } else {
            match self.parse_headers() {
                Err(err) => Err(err),
                Ok(ParseHeader::Last) => Ok(ParseStatus::Done),
                Ok(ParseHeader::Incomplete) => Ok(ParseStatus::NeedMore),
                Ok(ParseHeader::One) => Ok(ParseStatus::Continue),
            }
        }
    }

    /// Steps on the pending bytes until a step asks for more bytes,
    /// completes the head or fails, or no byte is left (which asks for more
    /// bytes too), as [`drive_spec`] says. This always ends: a step that
    /// says to go on takes at least one byte.
    pub fn parse_pending(&mut self) -> (r: Result<ParseStatus, ParseError>)
        requires
            old(self).wf(),
        ensures
            final(self).spec_stream() == old(self).spec_stream(),
            match drive_spec(old(self).head(), old(self).pending()) {
                StepSpec::Fail(k) => r matches Err(e) && e.spec_kind() == k,
                StepSpec::Next(st, h, b) => r matches Ok(x) && x == st && final(self).wf()
                    && final(self).head() == h && final(self).pending() == b,
            },
    {
        while self.pending_bytes().len() > 0
            invariant
                self.wf(),
                drive_spec(self.head(), self.pending()) == drive_spec(
                    old(self).head(),
                    old(self).pending(),
                ),
                self.spec_stream() == old(self).spec_stream(),
            decreases self.pending().len(),
        {
            proof {
                lemma_step_progress(self.head(), self.pending());
            }
            match self.step() {
                Err(err) => return Err(err),
                Ok(ParseStatus::Continue) => {},
                Ok(st) => return Ok(st),
            }
        }
        Ok(ParseStatus::NeedMore)
    }

    /// Consumes a parser whose head is complete into the request head it
    /// describes and the stream: its method, URI and version, and its
    /// header map, where a later line replaces an earlier one of the same
    /// name. Building the header map fails with [`ParseError::HttpError`]
    /// when `http` refuses to grow it further; the stream is handed back
    /// either way.
    pub fn into_request_head(self) -> (r: (Result<RequestHead, ParseError>, S))
        requires
            self.wf(),
            self.head().state == 3,
        ensures
            r.1 == self.spec_stream(),
            r.0 matches Ok(req) ==> method_contents(request_method(req)) == self.head().method->Some_0
                && request_uri(req) == uri_parse(self.head().uri->Some_0) && request_version(req)
                == self.head().version && request_headers(req) == header_map(self.head().headers),
            r.0 matches Err(e) ==> e.spec_kind() == ParseErrorKind::HttpError,
    {
        let ghost hs = self.head().headers;
        let (method, uri, version, lines, stream) = self.into_parts();
        let mut req = request_new();
        request_set_method(&mut req, method);
        request_set_uri(&mut req, uri);
        request_set_version(&mut req, version);
        let ghost all = lines@;
        let mut lines = lines;
        let mut queue: VecDeque<(HeaderName, HeaderValue)> = VecDeque::new();
        while lines.len() > 0
            invariant
                lines@ + queue@ == all,
            decreases lines@.len(),
        {
            let line = lines.pop().unwrap();
            queue.push_front(line);
            assert(lines@ + queue@ =~= all);
        }
        assert(queue@ =~= all);
        let ghost n: int = hs.len() as int;
        let ghost mut i: int = 0;
        assert(hs.take(0) =~= Seq::<(Seq<u8>, Seq<u8>)>::empty());
        while queue.len() > 0
            invariant
                0 <= i <= n,
                n == hs.len(),
                queue@.len() == n - i,
                forall|j: int|
                    0 <= j < queue@.len() ==> header_value_contents(#[trigger] queue@[j].1) == hs[i
                        + j].1 && header_name_contents(queue@[j].0) == ascii_lower(hs[i + j].0),
                request_headers(req) == header_map(hs.take(i)),
                method_contents(request_method(req)) == method_contents(method),
                request_uri(req) == uri,
                request_version(req) == Some(version),
                stream == self.spec_stream(),
            decreases queue@.len(),
        {
            let (name, value) = queue.pop_front().unwrap();
            assert(hs.take(i + 1).drop_last() =~= hs.take(i));
            match request_try_insert_header(&mut req, name, value) {
                Ok(_) => {},
                Err(err) => return (Err(ParseError::HttpError(err)), stream),
            }
            proof {
                i = i + 1;
            }
        }
        assert(hs.take(n as int) =~= hs);
        (Ok(req), stream)
    }

    /// Consumes a parser whose head is complete and hands out the method,
    /// URI, version, header lines in parse order, and the stream.
    pub fn into_parts(self) -> (r: (Method, Uri, HttpVersion, Vec<(HeaderName, HeaderValue)>, S))
        requires
            self.wf(),
            self.head().state == 3,
        ensures
            method_contents(r.0) == self.head().method->Some_0,
            r.1 == uri_parse(self.head().uri->Some_0),
            Some(r.2) == self.head().version,
            r.3@.len() == self.head().headers.len(),
            forall|i: int|
                0 <= i < r.3@.len() ==> header_value_contents(#[trigger] r.3@[i].1)
                    == self.head().headers[i].1 && header_name_contents(r.3@[i].0) == ascii_lower(
                    self.head().headers[i].0,
                ),
            r.4 == self.spec_stream(),
    {
        let RequestBuilder { parsing, stream, .. } = self;
        let RequestParsing { method, uri, version, headers, .. } = parsing;
        (method.unwrap(), uri.unwrap(), version.unwrap(), headers, stream)
    }
}

} // verus!
