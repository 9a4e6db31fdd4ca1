//! The parts of the `http` crate that the request parser calls.
//!
//! Method, URI, header name and header value objects are opaque to Verus and
//! are only carried. Each constructor is reached through one trusted wrapper
//! whose contract says when the crate accepts the given bytes.
use vstd::prelude::*;

use bytes::BytesMut;
use http::header::{HeaderName, HeaderValue, InvalidHeaderName, InvalidHeaderValue};
use http::method::InvalidMethod;
use http::uri::InvalidUri;
use http::{Method, Request, Uri, Version};

use super::parse::HttpVersion;

use crate::buf::bytes_mut_contents;

verus! {

#[verifier::external_type_specification]
#[verifier::external_body]
pub struct ExMethod(http::Method);

#[verifier::external_type_specification]
#[verifier::external_body]
pub struct ExInvalidMethod(http::method::InvalidMethod);

#[verifier::external_type_specification]
#[verifier::external_body]
pub struct ExUri(http::Uri);

#[verifier::external_type_specification]
#[verifier::external_body]
pub struct ExInvalidUri(http::uri::InvalidUri);

#[verifier::external_type_specification]
#[verifier::external_body]
pub struct ExHeaderName(http::header::HeaderName);

#[verifier::external_type_specification]
#[verifier::external_body]
pub struct ExInvalidHeaderName(http::header::InvalidHeaderName);

#[verifier::external_type_specification]
#[verifier::external_body]
pub struct ExHeaderValue(http::header::HeaderValue);

#[verifier::external_type_specification]
#[verifier::external_body]
pub struct ExInvalidHeaderValue(http::header::InvalidHeaderValue);

#[verifier::external_type_specification]
#[verifier::external_body]
pub struct ExHttpError(http::Error);

/// A `tchar` of RFC 9110: the bytes that may make up a method token.
pub open spec fn is_tchar(b: u8) -> bool {
    ||| 48 <= b <= 57  // 0-9
    ||| 65 <= b <= 90  // A-Z
    ||| 97 <= b <= 122  // a-z
    ||| b == 33 || b == 35 || b == 36 || b == 37 || b == 38 || b == 39  // ! # $ % & '
    ||| b == 42 || b == 43 || b == 45 || b == 46  // * + - .
    ||| b == 94 || b == 95 || b == 96 || b == 124 || b == 126  // ^ _ ` | ~
}

/// The bytes that `http::Method::from_bytes` accepts: a non-empty token.
pub open spec fn is_method_token(s: Seq<u8>) -> bool {
    s.len() > 0 && forall|i: int| 0 <= i < s.len() ==> #[trigger] is_tchar(s[i])
}

/// A byte that a header value may hold: visible, or tab, or any byte from 128 up.
pub open spec fn is_header_value_byte(b: u8) -> bool {
    (b >= 32 && b != 127) || b == 9
}

/// The bytes that `http::HeaderValue::from_bytes` accepts.
pub open spec fn is_header_value(s: Seq<u8>) -> bool {
    forall|i: int| 0 <= i < s.len() ==> #[trigger] is_header_value_byte(s[i])
}

/// Whether `http::Uri` parses the given bytes into a URI.
pub uninterp spec fn uri_accepts(s: Seq<u8>) -> bool;

/// Whether `http::header::HeaderName::from_bytes` accepts the given bytes.
pub uninterp spec fn header_name_accepts(s: Seq<u8>) -> bool;

/// The bytes that a `HeaderValue` holds.
pub uninterp spec fn header_value_contents(v: HeaderValue) -> Seq<u8>;

/// The bytes of a `HeaderName` (`HeaderName::as_str`).
pub uninterp spec fn header_name_contents(n: HeaderName) -> Seq<u8>;

/// The bytes of a `Method`'s name (`Method::as_str`).
pub uninterp spec fn method_contents(m: Method) -> Seq<u8>;

/// The `Uri` that `http::Uri` parses from the given bytes, when it accepts
/// them.
pub uninterp spec fn uri_parse(s: Seq<u8>) -> Uri;

/// `b` with the ASCII capitals `A`-`Z` turned into small letters.
pub open spec fn ascii_lower(b: Seq<u8>) -> Seq<u8> {
    b.map_values(|c: u8| if 65 <= c <= 90 { (c + 32) as u8 } else { c })
}

/// `http::Method::from_bytes`. The crate returns `Ok` exactly when the
/// bytes are a non-empty run of token characters (its `METHOD_CHARS` table),
/// and the method's name is then those bytes: a standard method for the
/// standard names, an extension method holding the bytes otherwise.
#[verifier::external_body]
pub(crate) fn method_from_bytes(src: &[u8]) -> (r: Result<Method, InvalidMethod>)
    ensures
        r is Ok <==> is_method_token(src@),
        r matches Ok(m) ==> method_contents(m) == src@,
{
    Method::from_bytes(src)
}

/// `http::Uri::from_maybe_shared` on a `BytesMut`. The crate copies the bytes
/// and parses them; whether it accepts them and the `Uri` it builds depend
/// on the bytes alone, which the names `uri_accepts` and `uri_parse` stand
/// for.
#[verifier::external_body]
pub(crate) fn uri_from_bytes_mut(src: BytesMut) -> (r: Result<Uri, InvalidUri>)
    ensures
        r is Ok <==> uri_accepts(bytes_mut_contents(src)),
        r matches Ok(u) ==> u == uri_parse(bytes_mut_contents(src)),
{
    Uri::from_maybe_shared(src)
}

/// `http::header::HeaderName::from_bytes`. Whether the crate accepts the
/// bytes (length limits, token characters) is given the name
/// `header_name_accepts`. An accepted name holds the bytes with capitals
/// made small (its `HEADER_CHARS` table; a standard header's name is the
/// same lowercase text).
#[verifier::external_body]
pub(crate) fn header_name_from_bytes(src: &[u8]) -> (r: Result<HeaderName, InvalidHeaderName>)
    ensures
        r is Ok <==> header_name_accepts(src@),
        r matches Ok(n) ==> header_name_contents(n) == ascii_lower(src@),
{
    HeaderName::from_bytes(src)
}

/// `http::header::HeaderValue::from_maybe_shared` on a `BytesMut`. A
/// `BytesMut` is not a `Bytes`, so the crate validates the bytes one by one
/// (`is_valid`: at least 32 and not 127, or a tab) and keeps a copy of them.
#[verifier::external_body]
pub(crate) fn header_value_from_bytes_mut(src: BytesMut) -> (r: Result<HeaderValue, InvalidHeaderValue>)
    ensures
        r is Ok <==> is_header_value(bytes_mut_contents(src)),
        r matches Ok(v) ==> header_value_contents(v) == bytes_mut_contents(src),
{
    HeaderValue::from_maybe_shared(src)
}

/// `http::header::HeaderValue::from_static("")`: the empty header value.
#[verifier::external_body]
pub(crate) fn header_value_empty() -> (v: HeaderValue)
    ensures
        header_value_contents(v) == Seq::<u8>::empty(),
{
    HeaderValue::from_static("")
}

#[verifier::external_type_specification]
#[verifier::external_body]
#[verifier::reject_recursive_types(T)]
pub struct ExRequest<T>(http::Request<T>);

/// A request without a body: its method, URI, version and headers.
pub type RequestHead = Request<()>;

/// The method of a request head.
pub uninterp spec fn request_method(r: RequestHead) -> Method;

/// The URI of a request head.
pub uninterp spec fn request_uri(r: RequestHead) -> Uri;

/// The version of a request head, among those a request line may name.
pub uninterp spec fn request_version(r: RequestHead) -> Option<HttpVersion>;

/// The header map of a request head: each name's bytes to the bytes of its
/// one value.
pub uninterp spec fn request_headers(r: RequestHead) -> Map<Seq<u8>, Seq<u8>>;

/// `http::Request::new(())`: a request head with no header.
#[verifier::external_body]
pub(crate) fn request_new() -> (r: RequestHead)
    ensures
        request_headers(r).dom().is_empty(),
{
    Request::new(())
}

/// `*Request::method_mut() = m`: sets the method and nothing else.
#[verifier::external_body]
pub(crate) fn request_set_method(r: &mut RequestHead, m: Method)
    ensures
        request_method(*final(r)) == m,
        request_uri(*final(r)) == request_uri(*old(r)),
        request_version(*final(r)) == request_version(*old(r)),
        request_headers(*final(r)) == request_headers(*old(r)),
{
    *r.method_mut() = m;
}

/// `*Request::uri_mut() = u`: sets the URI and nothing else.
#[verifier::external_body]
pub(crate) fn request_set_uri(r: &mut RequestHead, u: Uri)
    ensures
        request_uri(*final(r)) == u,
        request_method(*final(r)) == request_method(*old(r)),
        request_version(*final(r)) == request_version(*old(r)),
        request_headers(*final(r)) == request_headers(*old(r)),
{
    *r.uri_mut() = u;
}

/// `*Request::version_mut() = ..`: sets the version named by `v` and
/// nothing else.
#[verifier::external_body]
pub(crate) fn request_set_version(r: &mut RequestHead, v: HttpVersion)
    ensures
        request_version(*final(r)) == Some(v),
        request_method(*final(r)) == request_method(*old(r)),
        request_uri(*final(r)) == request_uri(*old(r)),
        request_headers(*final(r)) == request_headers(*old(r)),
{
    *r.version_mut() = match v {
        HttpVersion::Http09 => Version::HTTP_09,
        HttpVersion::Http10 => Version::HTTP_10,
        HttpVersion::Http11 => Version::HTTP_11,
        HttpVersion::Http2 => Version::HTTP_2,
        HttpVersion::Http3 => Version::HTTP_3,
    };
}

/// `HeaderMap::try_insert` on the request's headers, its error turned into
/// an `http::Error`. When it succeeds the name has this one value, whatever
/// values it had before; when it fails (the map would have to grow past the
/// most entries `HeaderMap` holds) the headers are as they were. Which
/// insertions fail is not stated: it depends on how the map has grown.
/// Nothing else of the request changes.
#[verifier::external_body]
pub(crate) fn request_try_insert_header(r: &mut RequestHead, n: HeaderName, v: HeaderValue) -> (res:
    Result<Option<HeaderValue>, http::Error>)
    ensures
        res is Ok ==> request_headers(*final(r)) == request_headers(*old(r)).insert(
            header_name_contents(n),
            header_value_contents(v),
        ),
        res is Err ==> request_headers(*final(r)) == request_headers(*old(r)),
        request_method(*final(r)) == request_method(*old(r)),
        request_uri(*final(r)) == request_uri(*old(r)),
        request_version(*final(r)) == request_version(*old(r)),
{
    r.headers_mut().try_insert(n, v).map_err(http::Error::from)
}

} // verus!
