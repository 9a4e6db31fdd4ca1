use hala::http1::parse::{
    parse_token, parse_uri, parse_version, skip_newline, skip_spaces, trim_suffix_spaces,
    HttpVersion, ParseError, ParseErrorKind, ParseStatus, ParserConfig, RequestBuilder,
    SkipNewLine, _skip_newline,
};
use http::header::{HeaderMap, HeaderName, HeaderValue};
use http::{Method, Uri, Version};

struct Parsed {
    method: Method,
    uri: Uri,
    version: HttpVersion,
    headers: HeaderMap,
}

/// Reads `buf` as the whole stream: one read hands over every byte, the
/// next finds the end of the stream.
fn parse_request(buf: &[u8]) -> Result<Parsed, ParseError> {
    let mut builder = RequestBuilder::new("test", ());
    let mut read = false;
    loop {
        if read {
            return Err(ParseError::Eof);
        }
        builder.feed(buf);
        read = true;
        match builder.parse_pending()? {
            ParseStatus::Done => {
                let (head, _) = builder.into_request_head();
                let head = head?;
                let version = match head.version() {
                    Version::HTTP_09 => HttpVersion::Http09,
                    Version::HTTP_10 => HttpVersion::Http10,
                    Version::HTTP_11 => HttpVersion::Http11,
                    Version::HTTP_2 => HttpVersion::Http2,
                    Version::HTTP_3 => HttpVersion::Http3,
                    other => panic!("unexpected version {:?}", other),
                };
                return Ok(Parsed {
                    method: head.method().clone(),
                    uri: head.uri().clone(),
                    version,
                    headers: head.headers().clone(),
                });
            }
            _ => {}
        }
    }
}

fn parse_request_test<F: FnOnce(Parsed)>(buf: &[u8], f: F) {
    let request = parse_request(buf).expect("parse request failed.");
    f(request)
}

fn expect_request_partial_parse(buf: &[u8]) {
    match parse_request(buf) {
        Err(ParseError::Eof) => {}
        Err(err) => panic!("Expect eof, but got {:?}", err),
        Ok(_) => panic!("Expect eof, but the head parsed"),
    }
}

fn expect_request_empty_method(buf: &[u8]) {
    match parse_request(buf) {
        Err(ParseError::Token) => {}
        Err(err) => panic!("Expect token, but got {:?}", err),
        Ok(_) => panic!("Expect token, but the head parsed"),
    }
}

fn expect_error_kind(buf: &[u8], kind: ParseErrorKind) {
    match parse_request(buf) {
        Err(err) => assert_eq!(err.kind(), kind),
        Ok(_) => panic!("Expect {:?}, but the head parsed", kind),
    }
}

#[test]
fn request_tests() {
    parse_request_test(b"GET / HTTP/1.1\r\n\r\n", |req| {
        assert_eq!(req.method, Method::GET);
        assert_eq!(req.uri.to_string(), "/");
        assert_eq!(req.version, HttpVersion::Http11);
        assert_eq!(req.headers.len(), 0);
    });

    parse_request_test(b"GET /thing?data=a HTTP/1.1\r\n\r\n", |req| {
        assert_eq!(req.method, Method::GET);
        assert_eq!(req.uri.to_string(), "/thing?data=a");
        assert_eq!(req.version, HttpVersion::Http11);
        assert_eq!(req.headers.len(), 0);
    });

    parse_request_test(b"GET /thing?data=a^ HTTP/1.1\r\n\r\n", |req| {
        assert_eq!(req.method, Method::GET);
        assert_eq!(req.uri.to_string(), "/thing?data=a^");
        assert_eq!(req.version, HttpVersion::Http11);
        assert_eq!(req.headers.len(), 0);
    });

    parse_request_test(b"GET / HTTP/1.1\r\nHost: foo.com\r\nCookie: \r\n\r\n", |req| {
        assert_eq!(req.method, Method::GET);
        assert_eq!(req.uri.to_string(), "/");
        assert_eq!(req.version, HttpVersion::Http11);
        assert_eq!(req.headers.len(), 2);
        assert_eq!(req.headers.get("Host").unwrap().to_str().unwrap(), "foo.com");
        assert_eq!(req.headers.get("Cookie").unwrap().to_str().unwrap(), "");
    });

    parse_request_test(b"GET / HTTP/1.1\r\nHost: \tfoo.com\t \r\nCookie: \t \r\n\r\n", |req| {
        assert_eq!(req.method, Method::GET);
        assert_eq!(req.uri.to_string(), "/");
        assert_eq!(req.version, HttpVersion::Http11);
        assert_eq!(req.headers.len(), 2);
        assert_eq!(req.headers.get("Host").unwrap().to_str().unwrap(), "foo.com");
        assert_eq!(req.headers.get("Cookie").unwrap().to_str().unwrap(), "");
    });

    parse_request_test(b"GET / HTTP/1.1\r\nUser-Agent: some\tagent\r\n\r\n", |req| {
        assert_eq!(req.method, Method::GET);
        assert_eq!(req.uri.to_string(), "/");
        assert_eq!(req.version, HttpVersion::Http11);
        assert_eq!(req.headers.len(), 1);
        assert_eq!(req.headers.get("User-Agent").unwrap().to_str().unwrap(), "some\tagent");
    });

    parse_request_test(b"GET / HTTP/1.1\r\nUser-Agent: 1234567890some\tagent\r\n\r\n", |req| {
        assert_eq!(req.method, Method::GET);
        assert_eq!(req.uri.to_string(), "/");
        assert_eq!(req.version, HttpVersion::Http11);
        assert_eq!(req.headers.len(), 1);
        assert_eq!(
            req.headers.get("User-Agent").unwrap().to_str().unwrap(),
            "1234567890some\tagent"
        );
    });

    parse_request_test(
        b"GET / HTTP/1.1\r\nUser-Agent: 1234567890some\t1234567890agent1234567890\r\n\r\n",
        |req| {
            assert_eq!(req.method, Method::GET);
            assert_eq!(req.uri.to_string(), "/");
            assert_eq!(req.version, HttpVersion::Http11);
            assert_eq!(req.headers.len(), 1);
            assert_eq!(
                req.headers.get("User-Agent").unwrap().to_str().unwrap(),
                "1234567890some\t1234567890agent1234567890"
            );
        },
    );

    parse_request_test(
        b"GET / HTTP/1.1\r\nHost: foo.com\r\nUser-Agent: \xe3\x81\xb2\xe3/1.0\r\n\r\n",
        |req| {
            assert_eq!(req.method, Method::GET);
            assert_eq!(req.uri.to_string(), "/");
            assert_eq!(req.version, HttpVersion::Http11);
            assert_eq!(req.headers.len(), 2);
            assert_eq!(req.headers.get("Host").unwrap().to_str().unwrap(), "foo.com");
            assert_eq!(
                req.headers.get("User-Agent").unwrap().as_bytes(),
                b"\xe3\x81\xb2\xe3/1.0"
            );
        },
    );

    parse_request_test(b"GET /\\?wayne\\=5 HTTP/1.1\r\n\r\n", |req| {
        assert_eq!(req.method, Method::GET);
        assert_eq!(req.uri.to_string(), "/\\?wayne\\=5");
        assert_eq!(req.version, HttpVersion::Http11);
        assert_eq!(req.headers.len(), 0);
    });

    expect_request_partial_parse(b"GET / HTTP/1.1\r\n\r");

    expect_request_partial_parse(b"GET / HTTP/1.1\r\nHost: yolo\r\n");

    expect_request_partial_parse(b"GET  HTTP/1.1\r\n\r\n");

    expect_request_empty_method(b"  HTTP/1.1\r\n\r\n");

    expect_request_empty_method(b" / HTTP/1.1\r\n\r\n");
}

#[test]
fn request_versions_and_methods() {
    parse_request_test(b"POST /a HTTP/1.0\r\n\r\n", |req| {
        assert_eq!(req.method, Method::POST);
        assert_eq!(req.uri.to_string(), "/a");
        assert_eq!(req.version, HttpVersion::Http10);
    });
    parse_request_test(b"PUT /b HTTP/0.9\r\n\r\n", |req| {
        assert_eq!(req.method, Method::PUT);
        assert_eq!(req.version, HttpVersion::Http09);
    });
    parse_request_test(b"DELETE /c HTTP/2.0\r\n\r\n", |req| {
        assert_eq!(req.method, Method::DELETE);
        assert_eq!(req.version, HttpVersion::Http2);
    });
    parse_request_test(b"OPTIONS * HTTP/3.0\r\nX: 1\r\n\r\n", |req| {
        assert_eq!(req.method, Method::OPTIONS);
        assert_eq!(req.uri.to_string(), "*");
        assert_eq!(req.version, HttpVersion::Http3);
        assert_eq!(req.headers.get("x").unwrap().to_str().unwrap(), "1");
    });
}

#[test]
fn request_duplicate_header_keeps_last() {
    parse_request_test(b"GET / HTTP/1.1\r\nA: 1\r\nA: 2\r\n\r\n", |req| {
        assert_eq!(req.headers.len(), 1);
        assert_eq!(req.headers.get("A").unwrap().to_str().unwrap(), "2");
    });
}

#[test]
fn request_error_kinds() {
    expect_error_kind(b"G@T / HTTP/1.1\r\n\r\n", ParseErrorKind::InvalidMethod);
    expect_error_kind(b"GET /a b HTTP/1.1\r\n\r\n", ParseErrorKind::InvalidVersion);
    expect_error_kind(b"GET / HTTP/1.1\r\n:x\r\n\r\n", ParseErrorKind::HeaderName);
    expect_error_kind(b"GET / HTTP/1.1\r\nA B: x\r\n\r\n", ParseErrorKind::InvalidHeaderName);
    expect_error_kind(b"GET / HTTP/1.1\r\nA: x\x7fy\r\n\r\n", ParseErrorKind::InvalidHeaderValue);
    expect_error_kind(b"GET / HTTP/1.1\n", ParseErrorKind::Newline);
    expect_request_partial_parse(b"GET / HTTP/1.1\n\n");
    expect_error_kind(b"GET /a\x7f HTTP/1.1\r\n\r\n", ParseErrorKind::InvalidUri);
}

#[test]
fn step_incomplete_parts_need_more() {
    let mut builder = RequestBuilder::new("test", ());
    builder.feed(b"GET / HTTP/1.1\r\nHost: x");
    assert_eq!(builder.step().unwrap(), ParseStatus::Continue);
    assert_eq!(builder.step().unwrap(), ParseStatus::Continue);
    assert_eq!(builder.step().unwrap(), ParseStatus::Continue);
    assert_eq!(builder.step().unwrap(), ParseStatus::NeedMore);
    assert_eq!(builder.pending_bytes(), b"\r\nHost: x");
    builder.feed(b"yz\r\n\r\n");
    assert_eq!(builder.parse_pending().unwrap(), ParseStatus::Done);
    assert_eq!(builder.headers().len(), 1);
    assert_eq!(builder.headers()[0].0.as_str(), "host");
    assert_eq!(builder.headers()[0].1.as_bytes(), b"xyz");

    let mut builder = RequestBuilder::new("test", ());
    builder.feed(b"GET");
    assert_eq!(builder.step().unwrap(), ParseStatus::NeedMore);
    assert_eq!(builder.pending_bytes(), b"GET");
    builder.feed(b" / HTTP/1");
    assert_eq!(builder.step().unwrap(), ParseStatus::Continue);
    assert_eq!(builder.step().unwrap(), ParseStatus::Continue);
    assert_eq!(builder.step().unwrap(), ParseStatus::NeedMore);
    assert_eq!(builder.pending_bytes(), b"HTTP/1");
}

#[test]
fn every_prefix_of_a_head_ends_in_eof() {
    let head: &[u8] = b"GET /thing?data=a HTTP/1.1\r\nHost: \tfoo.com\t \r\nUser-Agent: some\tagent\r\nCookie: \r\n\r\n";
    for n in 0..head.len() {
        expect_request_partial_parse(&head[..n]);
    }
    assert!(parse_request(head).is_ok());
}

#[test]
fn step_by_step_feeding() {
    let mut builder = RequestBuilder::new_with("test", 7u32, ParserConfig::default());
    builder.feed(b"GET /pa");
    assert_eq!(builder.step().unwrap(), ParseStatus::Continue);
    assert_eq!(builder.pending_bytes(), b"/pa");
    assert_eq!(builder.method(), Some(&Method::GET));
    assert_eq!(builder.step().unwrap(), ParseStatus::NeedMore);
    builder.feed(b"th HTTP/1.1\r\n\r\n");
    assert_eq!(builder.step().unwrap(), ParseStatus::Continue);
    assert_eq!(builder.uri().unwrap().to_string(), "/path");
    assert_eq!(builder.step().unwrap(), ParseStatus::Continue);
    assert_eq!(builder.version(), Some(HttpVersion::Http11));
    assert_eq!(builder.pending_bytes(), b"\r\n\r\n");
    assert_eq!(builder.step().unwrap(), ParseStatus::Done);
    assert_eq!(builder.headers().len(), 0);
    assert_eq!(*builder.stream_mut(), 7u32);
}

#[test]
fn uri_token_after_separate_read() {
    let mut builder = RequestBuilder::new("test", ());
    builder.feed(b"GET ");
    assert_eq!(builder.step().unwrap(), ParseStatus::Continue);
    assert_eq!(builder.pending_bytes().len(), 0);
    builder.feed(b" / HTTP/1.1\r\n\r\n");
    assert_eq!(builder.step().unwrap_err().kind(), ParseErrorKind::UriToken);
}

#[test]
fn split_final_line_break_completes() {
    let mut builder = RequestBuilder::new("test", ());
    builder.feed(b"GET / HTTP/1.1\r\n");
    assert_eq!(builder.step().unwrap(), ParseStatus::Continue);
    assert_eq!(builder.step().unwrap(), ParseStatus::Continue);
    assert_eq!(builder.step().unwrap(), ParseStatus::Continue);
    assert_eq!(builder.step().unwrap(), ParseStatus::NeedMore);
    assert_eq!(builder.pending_bytes(), b"\r\n");
    builder.feed(b"\r\n");
    assert_eq!(builder.step().unwrap(), ParseStatus::Done);
    assert_eq!(builder.headers().len(), 0);

    let mut builder = RequestBuilder::new("test", ());
    builder.feed(b"GET / HTTP/1.1\r\nHost: a\r\n");
    assert_eq!(builder.parse_pending().unwrap(), ParseStatus::NeedMore);
    assert_eq!(builder.pending_bytes(), b"\r\n");
    builder.feed(b"\r");
    assert_eq!(builder.parse_pending().unwrap(), ParseStatus::NeedMore);
    builder.feed(b"\n");
    assert_eq!(builder.parse_pending().unwrap(), ParseStatus::Done);
    assert_eq!(builder.headers().len(), 1);
}

#[test]
fn every_split_of_a_head_parses_alike() {
    let head: &[u8] = b"GET /x HTTP/1.1\r\nHost: \tfoo.com\t \r\nCookie: \r\n\r\n";
    for n in 0..head.len() {
        let mut builder = RequestBuilder::new("test", ());
        builder.feed(&head[..n]);
        assert_eq!(builder.parse_pending().unwrap(), ParseStatus::NeedMore);
        builder.feed(&head[n..]);
        assert_eq!(builder.parse_pending().unwrap(), ParseStatus::Done);
        assert_eq!(builder.headers().len(), 2);
        assert_eq!(builder.headers()[0].1.as_bytes(), b"foo.com");
        assert_eq!(builder.headers()[1].1.as_bytes(), b"");
    }
}

#[test]
fn parser_config_default() {
    assert_eq!(ParserConfig::default().header_parse_max_buf(), 2048);
    assert_eq!(RequestBuilder::new("conn-1", ()).debug_info(), "conn-1");
}

#[test]
fn token_and_uri_scanning() {
    assert_eq!(parse_token(b"GET / x").unwrap(), Some(&b"GET"[..]));
    assert_eq!(parse_token(b"GET").unwrap(), None);
    assert!(matches!(parse_token(b" GET"), Err(ParseError::Token)));
    assert_eq!(parse_uri(b"/a\tb").unwrap(), Some(&b"/a"[..]));
    assert_eq!(parse_uri(b"/a b").unwrap(), Some(&b"/a"[..]));
    assert_eq!(parse_uri(b"/abc").unwrap(), None);
    assert!(matches!(parse_uri(b"\t/a"), Err(ParseError::UriToken)));
    assert_eq!(skip_spaces(b" \t x"), 3);
    assert_eq!(skip_spaces(b"  \t"), 3);
    assert_eq!(skip_spaces(b"x "), 0);
}

#[test]
fn version_scanning() {
    assert_eq!(parse_version(b"HTTP/1.1\r\n").unwrap(), Some(HttpVersion::Http11));
    assert_eq!(parse_version(b"HTTP/1.0").unwrap(), Some(HttpVersion::Http10));
    assert_eq!(parse_version(b"HTTP/0.9").unwrap(), Some(HttpVersion::Http09));
    assert_eq!(parse_version(b"HTTP/2.0").unwrap(), Some(HttpVersion::Http2));
    assert_eq!(parse_version(b"HTTP/3.0").unwrap(), Some(HttpVersion::Http3));
    assert_eq!(parse_version(b"HTTP/1.").unwrap(), None);
    assert!(matches!(parse_version(b"HTTP/1.2"), Err(ParseError::InvalidVersion)));
}

#[test]
fn newline_scanning() {
    assert_eq!(_skip_newline(b"\r\nx").unwrap(), SkipNewLine::One);
    assert_eq!(_skip_newline(b"\r").unwrap(), SkipNewLine::Incomplete);
    assert!(matches!(_skip_newline(b"\n"), Err(ParseError::Newline)));
    assert_eq!(_skip_newline(b"ab").unwrap(), SkipNewLine::Absent);
    assert_eq!(_skip_newline(b"").unwrap(), SkipNewLine::Absent);
    assert_eq!(skip_newline(b"\r\n\r\n").unwrap(), SkipNewLine::Break);
    assert_eq!(skip_newline(b"\r\nA").unwrap(), SkipNewLine::One);
    assert_eq!(skip_newline(b"\r\n\r").unwrap(), SkipNewLine::One);
    assert!(matches!(skip_newline(b"\r\n\n"), Err(ParseError::Newline)));
}

#[test]
fn trim_suffix_spaces_cases() {
    let mut b = bytes::BytesMut::from(&b"abc \t "[..]);
    trim_suffix_spaces(&mut b);
    assert_eq!(&b[..], b"abc");
    let mut b = bytes::BytesMut::from(&b" \t"[..]);
    trim_suffix_spaces(&mut b);
    assert_eq!(&b[..], b" \t");
    let mut b = bytes::BytesMut::from(&b"a b"[..]);
    trim_suffix_spaces(&mut b);
    assert_eq!(&b[..], b"a b");
}

#[test]
fn parse_error_from_conversions() {
    let e: ParseError = std::io::Error::new(std::io::ErrorKind::Other, "x").into();
    assert_eq!(e.kind(), ParseErrorKind::Io);
    let bad_uri = "/a b".parse::<Uri>().unwrap_err();
    let e: ParseError = bad_uri.into();
    assert_eq!(e.kind(), ParseErrorKind::InvalidUri);
    let bad_name = HeaderName::from_bytes(b"a b").unwrap_err();
    let e: ParseError = bad_name.into();
    assert_eq!(e.kind(), ParseErrorKind::InvalidHeaderName);
    let bad_value = HeaderValue::from_bytes(b"a\x7f").unwrap_err();
    let e: ParseError = bad_value.into();
    assert_eq!(e.kind(), ParseErrorKind::InvalidHeaderValue);
}

#[test]
fn into_parts_hands_out_lines_in_order() {
    let mut builder = RequestBuilder::new("test", 5u8);
    builder.feed(b"PATCH /p HTTP/1.0\r\nX-A: 1\r\nx-a: 2\r\n\r\n");
    assert_eq!(builder.parse_pending().unwrap(), ParseStatus::Done);
    let (method, uri, version, lines, stream) = builder.into_parts();
    assert_eq!(method.as_str(), "PATCH");
    assert_eq!(uri.to_string(), "/p");
    assert_eq!(version, HttpVersion::Http10);
    assert_eq!(lines.len(), 2);
    assert_eq!(lines[0].0.as_str(), "x-a");
    assert_eq!(lines[0].1.as_bytes(), b"1");
    assert_eq!(lines[1].0.as_str(), "x-a");
    assert_eq!(lines[1].1.as_bytes(), b"2");
    assert_eq!(stream, 5u8);
}

#[test]
fn header_map_full_is_an_error() {
    let mut head = b"GET / HTTP/1.1\r\n".to_vec();
    for i in 0..40000 {
        head.extend_from_slice(format!("h{}: v\r\n", i).as_bytes());
    }
    head.extend_from_slice(b"\r\n");
    expect_error_kind(&head, ParseErrorKind::HttpError);
}
