//! The bytes of a well-formed request head, and what the parser makes of
//! them: while only part of such a head has arrived the parser asks for
//! more bytes, and once all of it has arrived it completes the head with
//! the parts that the bytes spell out.
use vstd::prelude::*;

use super::parse::{
    drive_spec, header_line, initial_head, step_spec, version_of, HeadModel, ParseStatus, StepSpec,
};
use super::scan::{
    blank_end, blank_start_rev, is_blank, lemma_blank_end, lemma_blank_end_is, lemma_find_blank_is,
    lemma_find_byte_is, trim_blank_suffix,
};
use super::types::{header_name_accepts, is_header_value, is_method_token, is_tchar, uri_accepts};

verus! {

/// `q` holds the same bytes as `s` wherever both have one: one of the two
/// begins with the other.
pub open spec fn agrees(q: Seq<u8>, s: Seq<u8>) -> bool {
    forall|i: int| 0 <= i < q.len() && i < s.len() ==> #[trigger] q[i] == s[i]
}

/// The value that a header line `name:v` carries: `v` without the blanks
/// before and after it (there may be none after the colon).
pub open spec fn field_value(v: Seq<u8>) -> Seq<u8> {
    trim_blank_suffix(v.skip(blank_end(v, 0)))
}

/// A header line `name:v` of a well-formed head: the name is a token that
/// `HeaderName` accepts; `v`, all that follows the colon (with or without
/// blanks first), holds no carriage return, and what it carries is a valid
/// header value.
pub open spec fn line_ok(name: Seq<u8>, v: Seq<u8>) -> bool {
    &&& is_method_token(name)
    &&& header_name_accepts(name)
    &&& forall|i: int| 0 <= i < v.len() ==> #[trigger] v[i] != 13u8
    &&& is_header_value(field_value(v))
}

/// Every header line is well formed.
pub open spec fn lines_ok(hs: Seq<(Seq<u8>, Seq<u8>)>) -> bool {
    forall|i: int| 0 <= i < hs.len() ==> line_ok(#[trigger] hs[i].0, hs[i].1)
}

/// The header block: each line `name:v` after a line break, then an empty
/// line.
pub open spec fn header_block(hs: Seq<(Seq<u8>, Seq<u8>)>) -> Seq<u8>
    decreases hs.len(),
{
    if hs.len() == 0 {
        seq![13u8, 10u8, 13u8, 10u8]
    } else {
        seq![13u8, 10u8] + hs[0].0 + seq![58u8] + hs[0].1 + header_block(hs.skip(1))
    }
}

/// The header lines as the parser records them: each name with the value
/// that its line carries.
pub open spec fn parsed_lines(hs: Seq<(Seq<u8>, Seq<u8>)>) -> Seq<(Seq<u8>, Seq<u8>)> {
    hs.map_values(|h: (Seq<u8>, Seq<u8>)| (h.0, field_value(h.1)))
}

/// The parts of the request line of a well-formed head: a method token, a
/// URI without blanks that `Uri` accepts, and an eight-byte version.
pub open spec fn request_line_ok(method: Seq<u8>, uri: Seq<u8>, version: Seq<u8>) -> bool {
    &&& is_method_token(method)
    &&& uri.len() > 0
    &&& forall|i: int| 0 <= i < uri.len() ==> !is_blank(#[trigger] uri[i])
    &&& uri_accepts(uri)
    &&& version.len() == 8
    &&& version_of(version) is Some
}

/// The bytes of a request head: `method SP uri SP version`, then the header
/// block.
pub open spec fn head_bytes(
    method: Seq<u8>,
    uri: Seq<u8>,
    version: Seq<u8>,
    hs: Seq<(Seq<u8>, Seq<u8>)>,
) -> Seq<u8> {
    method + seq![32u8] + uri_onward(uri, version, hs)
}

/// The bytes of a request head from its URI on.
pub open spec fn uri_onward(uri: Seq<u8>, version: Seq<u8>, hs: Seq<(Seq<u8>, Seq<u8>)>) -> Seq<
    u8,
> {
    uri + seq![32u8] + version + header_block(hs)
}

/// The head that the parser makes of a complete well-formed head.
pub open spec fn parsed_head(
    method: Seq<u8>,
    uri: Seq<u8>,
    version: Seq<u8>,
    hs: Seq<(Seq<u8>, Seq<u8>)>,
) -> HeadModel {
    HeadModel {
        state: 3,
        method: Some(method),
        uri: Some(uri),
        version: version_of(version),
        headers: parsed_lines(hs),
    }
}

proof fn lemma_block_shape(hs: Seq<(Seq<u8>, Seq<u8>)>)
    ensures
        header_block(hs).len() >= 4,
        header_block(hs)[0] == 13u8,
    decreases hs.len(),
{
    if hs.len() > 0 {
        lemma_block_shape(hs.skip(1));
    }
}

proof fn lemma_agrees_skip(q: Seq<u8>, s: Seq<u8>, k: int)
    requires
        agrees(q, s),
        0 <= k <= q.len(),
        k <= s.len(),
    ensures
        agrees(q.skip(k), s.skip(k)),
{
    assert forall|i: int| 0 <= i < q.skip(k).len() && i < s.skip(k).len() implies #[trigger] q.skip(
        k,
    )[i] == s.skip(k)[i] by {
        assert(q[i + k] == s[i + k]);
    }
}

/// One header line, after the line break before it, whatever blanks follow
/// its colon (none included): the bytes so far agree
/// with `name:` and `v` (which may start with blanks, or not) followed by
/// `t`, which starts with a carriage return. Until that carriage return has
/// arrived the parser asks for more bytes and takes none; then it records
/// the line and takes it.
pub proof fn lemma_header_line_records(m: HeadModel, name: Seq<u8>, v: Seq<u8>, t: Seq<u8>, d: Seq<u8>)
    requires
        line_ok(name, v),
        t.len() > 0,
        t[0] == 13u8,
        agrees(d, name + seq![58u8] + v + t),
    ensures
        d.len() <= name.len() + 1 + v.len() ==> header_line(m, d) == StepSpec::Next(
            ParseStatus::NeedMore,
            m,
            d,
        ),
        d.len() > name.len() + 1 + v.len() ==> header_line(m, d) == StepSpec::Next(
            ParseStatus::Continue,
            HeadModel { headers: m.headers.push((name, field_value(v))), ..m },
            d.skip(name.len() + 1 + v.len() as int),
        ),
{
    let x = name + seq![58u8] + v + t;
    let ln = name.len() as int;
    let lx = ln + 1 + v.len();
    assert forall|i: int| 0 <= i < ln implies #[trigger] x[i] == name[i] by {}
    assert(x[ln] == 58u8);
    assert forall|i: int| 0 <= i < v.len() implies #[trigger] x[ln + 1 + i] == v[i] by {}
    assert(x[lx] == 13u8);
    if d.len() <= ln {
        assert forall|j: int| 0 <= j < d.len() implies #[trigger] d[j] != 58u8 by {
            assert(d[j] == x[j]);
            assert(is_tchar(name[j]));
        }
        lemma_find_byte_is(d, 58u8, d.len() as int);
    } else {
        assert forall|j: int| 0 <= j < ln implies #[trigger] d[j] != 58u8 by {
            assert(d[j] == x[j]);
            assert(is_tchar(name[j]));
        }
        assert(d[ln] == x[ln]);
        lemma_find_byte_is(d, 58u8, ln);
        assert(d.take(ln) =~= name) by {
            assert forall|j: int| 0 <= j < ln implies #[trigger] d.take(ln)[j] == name[j] by {
                assert(d[j] == x[j]);
            }
        }
        let e = d.skip(ln + 1);
        lemma_blank_end(v, 0);
        let be = blank_end(v, 0);
        let b1 = if e.len() <= be {
            e.len() as int
        } else {
            be
        };
        assert forall|j: int| 0 <= j < b1 implies is_blank(#[trigger] e[j]) by {
            assert(e[j] == d[ln + 1 + j]);
            assert(d[ln + 1 + j] == x[ln + 1 + j]);
        }
        if b1 < e.len() {
            assert(e[b1] == d[ln + 1 + b1]);
            assert(d[ln + 1 + b1] == x[ln + 1 + b1]);
        }
        lemma_blank_end_is(e, b1);
        let f = e.skip(b1);
        if d.len() <= lx {
            assert forall|j: int| 0 <= j < f.len() implies #[trigger] f[j] != 13u8 by {
                assert(f[j] == d[ln + 1 + b1 + j]);
                assert(d[ln + 1 + b1 + j] == x[ln + 1 + b1 + j]);
                assert(x[ln + 1 + (b1 + j)] == v[b1 + j]);
            }
            lemma_find_byte_is(f, 13u8, f.len() as int);
        } else {
            let vv = v.len() - be;
            assert forall|j: int| 0 <= j < vv implies #[trigger] f[j] != 13u8 by {
                assert(f[j] == d[ln + 1 + b1 + j]);
                assert(d[ln + 1 + b1 + j] == x[ln + 1 + b1 + j]);
                assert(x[ln + 1 + (be + j)] == v[be + j]);
            }
            assert(f[vv] == d[lx]);
            lemma_find_byte_is(f, 13u8, vv);
            assert(f.take(vv) =~= v.skip(be)) by {
                assert forall|j: int| 0 <= j < vv implies #[trigger] f.take(vv)[j] == v.skip(be)[j] by {
                    assert(f[j] == d[ln + 1 + b1 + j]);
                    assert(d[ln + 1 + b1 + j] == x[ln + 1 + b1 + j]);
                    assert(x[ln + 1 + (be + j)] == v[be + j]);
                }
            }
            assert(f.skip(vv) =~= d.skip(lx));
            if vv == 0 {
                assert(v.skip(be) =~= Seq::<u8>::empty());
                assert(f =~= d.skip(lx));
                assert(blank_start_rev(Seq::<u8>::empty(), 0) == 0);
                assert(field_value(v) =~= Seq::<u8>::empty());
            }
        }
    }
}

proof fn lemma_agrees_prefix(q: Seq<u8>, x: Seq<u8>, s: Seq<u8>)
    requires
        agrees(q + x, s),
    ensures
        agrees(q, s),
{
    assert forall|i: int| 0 <= i < q.len() && i < s.len() implies #[trigger] q[i] == s[i] by {
        assert((q + x)[i] == q[i]);
    }
}

/// One step on the header block of a well-formed head, from the line break
/// before a line (or before the empty line that ends the block): until the
/// line has all arrived it asks for more bytes and takes none; then it
/// records the line and takes it, or completes the head at the empty line.
proof fn lemma_header_step(m: HeadModel, hs: Seq<(Seq<u8>, Seq<u8>)>, q: Seq<u8>)
    requires
        m.state == 3,
        lines_ok(hs),
        agrees(q, header_block(hs)),
        q.len() > 0,
    ensures
        hs.len() == 0 && q.len() < 4 ==> step_spec(m, q) == StepSpec::Next(ParseStatus::NeedMore, m, q),
        hs.len() == 0 && q.len() >= 4 ==> step_spec(m, q) == StepSpec::Next(
            ParseStatus::Done,
            m,
            q.skip(4),
        ),
        hs.len() > 0 && q.len() <= 3 + hs[0].0.len() + hs[0].1.len() ==> step_spec(m, q)
            == StepSpec::Next(ParseStatus::NeedMore, m, q),
        hs.len() > 0 && q.len() > 3 + hs[0].0.len() + hs[0].1.len() ==> step_spec(m, q)
            == StepSpec::Next(
            ParseStatus::Continue,
            HeadModel { headers: m.headers.push((hs[0].0, field_value(hs[0].1))), ..m },
            q.skip(3 + hs[0].0.len() + hs[0].1.len() as int),
        ),
{
    let blk = header_block(hs);
    lemma_block_shape(hs);
    assert(q[0] == 13u8);
    lemma_blank_end_is(q, 0);
    assert(q.skip(0) =~= q);
    if hs.len() == 0 {
        if q.len() >= 2 {
            assert(q[1] == blk[1]);
            let d = q.skip(2);
            if q.len() == 2 {
                lemma_find_byte_is(d, 58u8, 0);
            } else if q.len() == 3 {
                assert(d[0] == blk[2]);
                lemma_find_byte_is(d, 58u8, 1);
            } else {
                assert(d[0] == blk[2]);
                assert(d[1] == blk[3]);
                assert(q.skip(2).skip(2) =~= q.skip(4));
            }
        }
    } else {
        let name = hs[0].0;
        let v = hs[0].1;
        let t = header_block(hs.skip(1));
        let x = name + seq![58u8] + v + t;
        lemma_block_shape(hs.skip(1));
        assert(line_ok(hs[0].0, hs[0].1));
        assert(blk =~= seq![13u8, 10u8] + x);
        if q.len() >= 2 {
            assert(q[1] == blk[1]);
            let d = q.skip(2);
            lemma_agrees_skip(q, blk, 2);
            assert(blk.skip(2) =~= x);
            if d.len() > 0 {
                assert(d[0] == x[0]);
                assert(x[0] == name[0]);
                assert(is_tchar(name[0]));
            }
            lemma_header_line_records(m, name, v, t, d);
            let lx = name.len() + 1 + v.len();
            if d.len() > lx {
                assert(d.skip(lx as int) =~= q.skip(2 + lx as int));
            }
        }
    }
}

/// The header block of a well-formed head, from the line break after the
/// version: while it has not all arrived the parser asks for more bytes,
/// and bytes that arrive later are parsed as if they had come with the
/// rest; once it has all arrived, the parser records its lines and
/// completes the head, leaving the bytes after the block pending.
proof fn lemma_block(m: HeadModel, hs: Seq<(Seq<u8>, Seq<u8>)>, q: Seq<u8>, more: Seq<u8>)
    requires
        m.state == 3,
        lines_ok(hs),
        agrees(q + more, header_block(hs)),
    ensures
        q.len() < header_block(hs).len() ==> (drive_spec(m, q) matches StepSpec::Next(st, h, r)
            && st == ParseStatus::NeedMore && drive_spec(m, q + more) == drive_spec(h, r + more)),
        q.len() >= header_block(hs).len() ==> drive_spec(m, q) == StepSpec::Next(
            ParseStatus::Done,
            HeadModel { headers: m.headers + parsed_lines(hs), ..m },
            q.skip(header_block(hs).len() as int),
        ),
    decreases hs.len(),
{
    let blk = header_block(hs);
    lemma_block_shape(hs);
    lemma_agrees_prefix(q, more, blk);
    if q.len() == 0 {
        assert(q + more =~= more);
        return;
    }
    lemma_header_step(m, hs, q);
    if hs.len() == 0 {
        assert(parsed_lines(hs) =~= Seq::<(Seq<u8>, Seq<u8>)>::empty());
        assert(m.headers + parsed_lines(hs) =~= m.headers);
    } else {
        let name = hs[0].0;
        let v = hs[0].1;
        let t = header_block(hs.skip(1));
        let lq = 3 + name.len() + v.len();
        lemma_block_shape(hs.skip(1));
        assert(blk =~= seq![13u8, 10u8] + name + seq![58u8] + v + t);
        if q.len() > lq {
            let m2 = HeadModel { headers: m.headers.push((name, field_value(v))), ..m };
            let rest = q.skip(lq as int);
            lemma_header_step(m, hs, q + more);
            assert((q + more).skip(lq as int) =~= rest + more);
            lemma_agrees_skip(q + more, blk, lq as int);
            assert(blk.skip(lq as int) =~= t);
            let tl = hs.skip(1);
            assert forall|i: int| 0 <= i < tl.len() implies line_ok(#[trigger] tl[i].0, tl[i].1) by {
                assert(tl[i] == hs[i + 1]);
            }
            lemma_block(m2, tl, rest, more);
            assert(m2.headers + parsed_lines(tl) =~= m.headers + parsed_lines(hs));
            if q.len() >= blk.len() {
                assert(rest.skip(t.len() as int) =~= q.skip(blk.len() as int));
            }
        }
    }
}

proof fn lemma_version_stage(
    m: HeadModel,
    version: Seq<u8>,
    hs: Seq<(Seq<u8>, Seq<u8>)>,
    q: Seq<u8>,
    more: Seq<u8>,
)
    requires
        m.state == 2,
        version.len() == 8,
        version_of(version) is Some,
        lines_ok(hs),
        agrees(q + more, version + header_block(hs)),
    ensures
        q.len() < 8 + header_block(hs).len() ==> (drive_spec(m, q) matches StepSpec::Next(st, h, r)
            && st == ParseStatus::NeedMore && drive_spec(m, q + more) == drive_spec(h, r + more)),
        q.len() >= 8 + header_block(hs).len() ==> drive_spec(m, q) == StepSpec::Next(
            ParseStatus::Done,
            HeadModel {
                state: 3,
                version: version_of(version),
                headers: m.headers + parsed_lines(hs),
                ..m
            },
            q.skip(8 + header_block(hs).len() as int),
        ),
{
    let s = version + header_block(hs);
    lemma_block_shape(hs);
    lemma_agrees_prefix(q, more, s);
    if q.len() < 8 {
        return;
    }
    assert forall|i: int| 0 <= i < 8 implies #[trigger] q[i] == version[i] by {
        assert(q[i] == s[i]);
    }
    assert forall|i: int| 0 <= i < 8 implies #[trigger] (q + more)[i] == version[i] by {
        assert((q + more)[i] == q[i]);
    }
    assert(version_of(q) == version_of(version));
    assert(version_of(q + more) == version_of(version));
    let m2 = HeadModel { state: 3, version: version_of(version), ..m };
    assert((q + more).skip(8) =~= q.skip(8) + more);
    lemma_agrees_skip(q + more, s, 8);
    assert(s.skip(8) =~= header_block(hs));
    lemma_block(m2, hs, q.skip(8), more);
    if q.len() >= s.len() {
        assert(q.skip(8).skip(header_block(hs).len() as int) =~= q.skip(s.len() as int));
    }
}

/// One step on the URI of a well-formed head, followed by a space and by
/// `w`, which starts with no blank: until the space has arrived it asks for
/// more bytes and takes none; then it records the URI and takes it with the
/// space.
proof fn lemma_uri_step(m: HeadModel, uri: Seq<u8>, w: Seq<u8>, q: Seq<u8>)
    requires
        m.state == 1,
        uri.len() > 0,
        forall|i: int| 0 <= i < uri.len() ==> !is_blank(#[trigger] uri[i]),
        uri_accepts(uri),
        w.len() > 0,
        !is_blank(w[0]),
        q.len() > 0,
        agrees(q, uri + seq![32u8] + w),
    ensures
        q.len() <= uri.len() ==> step_spec(m, q) == StepSpec::Next(ParseStatus::NeedMore, m, q),
        q.len() > uri.len() ==> step_spec(m, q) == StepSpec::Next(
            ParseStatus::Continue,
            HeadModel { state: 2, uri: Some(uri), ..m },
            q.skip(uri.len() + 1 as int),
        ),
{
    let s = uri + seq![32u8] + w;
    let lu = uri.len() as int;
    assert forall|i: int| 0 <= i < lu implies #[trigger] s[i] == uri[i] by {}
    assert(s[lu] == 32u8);
    assert(s[lu + 1] == w[0]);
    if q.len() <= lu {
        assert forall|j: int| 0 <= j < q.len() implies !is_blank(#[trigger] q[j]) by {
            assert(q[j] == s[j]);
        }
        lemma_find_blank_is(q, q.len() as int);
    } else {
        assert forall|j: int| 0 <= j < lu implies !is_blank(#[trigger] q[j]) by {
            assert(q[j] == s[j]);
        }
        assert(q[lu] == s[lu]);
        lemma_find_blank_is(q, lu);
        assert(q.take(lu) =~= uri) by {
            assert forall|j: int| 0 <= j < lu implies #[trigger] q.take(lu)[j] == uri[j] by {
                assert(q[j] == s[j]);
            }
        }
        let r = q.skip(lu);
        assert(r[0] == 32u8);
        if r.len() > 1 {
            assert(r[1] == q[lu + 1]);
            assert(q[lu + 1] == s[lu + 1]);
        }
        lemma_blank_end_is(r, 1);
        assert(r.skip(1) =~= q.skip(lu + 1));
    }
}

proof fn lemma_uri_stage(
    m: HeadModel,
    uri: Seq<u8>,
    version: Seq<u8>,
    hs: Seq<(Seq<u8>, Seq<u8>)>,
    q: Seq<u8>,
    more: Seq<u8>,
)
    requires
        m.state == 1,
        uri.len() > 0,
        forall|i: int| 0 <= i < uri.len() ==> !is_blank(#[trigger] uri[i]),
        uri_accepts(uri),
        version.len() == 8,
        version_of(version) is Some,
        lines_ok(hs),
        agrees(q + more, uri_onward(uri, version, hs)),
    ensures
        q.len() < uri_onward(uri, version, hs).len() ==> (drive_spec(m, q) matches StepSpec::Next(
            st,
            h,
            r,
        ) && st == ParseStatus::NeedMore && drive_spec(m, q + more) == drive_spec(h, r + more)),
        q.len() >= uri_onward(uri, version, hs).len() ==> drive_spec(m, q) == StepSpec::Next(
            ParseStatus::Done,
            HeadModel {
                state: 3,
                uri: Some(uri),
                version: version_of(version),
                headers: m.headers + parsed_lines(hs),
                ..m
            },
            q.skip(uri_onward(uri, version, hs).len() as int),
        ),
{
    let s = uri_onward(uri, version, hs);
    let w = version + header_block(hs);
    let lu = uri.len() as int;
    lemma_block_shape(hs);
    lemma_agrees_prefix(q, more, s);
    assert(s =~= uri + seq![32u8] + w);
    if q.len() == 0 {
        assert(q + more =~= more);
        return;
    }
    assert(w[0] == 72u8);
    lemma_uri_step(m, uri, w, q);
    if q.len() > lu {
        lemma_uri_step(m, uri, w, q + more);
        let m2 = HeadModel { state: 2, uri: Some(uri), ..m };
        let rest = q.skip(lu + 1);
        assert((q + more).skip(lu + 1) =~= rest + more);
        lemma_agrees_skip(q + more, s, lu + 1);
        assert(s.skip(lu + 1) =~= w);
        lemma_version_stage(m2, version, hs, rest, more);
        if q.len() >= s.len() {
            assert(rest.skip(8 + header_block(hs).len() as int) =~= q.skip(s.len() as int));
        }
    }
}

/// One step on the method of a well-formed head, followed by a space and by
/// `u`, which starts with no blank: until the space has arrived it asks for
/// more bytes and takes none; then it records the method and takes it with
/// the space.
proof fn lemma_method_step(m: HeadModel, method: Seq<u8>, u: Seq<u8>, q: Seq<u8>)
    requires
        m.state == 0,
        is_method_token(method),
        u.len() > 0,
        !is_blank(u[0]),
        q.len() > 0,
        agrees(q, method + seq![32u8] + u),
    ensures
        q.len() <= method.len() ==> step_spec(m, q) == StepSpec::Next(ParseStatus::NeedMore, m, q),
        q.len() > method.len() ==> step_spec(m, q) == StepSpec::Next(
            ParseStatus::Continue,
            HeadModel { state: 1, method: Some(method), ..m },
            q.skip(method.len() + 1 as int),
        ),
{
    let s = method + seq![32u8] + u;
    let lm = method.len() as int;
    assert forall|i: int| 0 <= i < lm implies #[trigger] s[i] == method[i] by {}
    assert(s[lm] == 32u8);
    assert(s[lm + 1] == u[0]);
    if q.len() <= lm {
        assert forall|j: int| 0 <= j < q.len() implies #[trigger] q[j] != 32u8 by {
            assert(q[j] == s[j]);
            assert(is_tchar(method[j]));
        }
        lemma_find_byte_is(q, 32u8, q.len() as int);
    } else {
        assert forall|j: int| 0 <= j < lm implies #[trigger] q[j] != 32u8 by {
            assert(q[j] == s[j]);
            assert(is_tchar(method[j]));
        }
        assert(q[lm] == s[lm]);
        lemma_find_byte_is(q, 32u8, lm);
        assert(q.take(lm) =~= method) by {
            assert forall|j: int| 0 <= j < lm implies #[trigger] q.take(lm)[j] == method[j] by {
                assert(q[j] == s[j]);
            }
        }
        let r = q.skip(lm);
        assert(r[0] == 32u8);
        if r.len() > 1 {
            assert(r[1] == q[lm + 1]);
            assert(q[lm + 1] == s[lm + 1]);
        }
        lemma_blank_end_is(r, 1);
        assert(r.skip(1) =~= q.skip(lm + 1));
    }
}

proof fn lemma_head(
    method: Seq<u8>,
    uri: Seq<u8>,
    version: Seq<u8>,
    hs: Seq<(Seq<u8>, Seq<u8>)>,
    q: Seq<u8>,
    more: Seq<u8>,
)
    requires
        request_line_ok(method, uri, version),
        lines_ok(hs),
        agrees(q + more, head_bytes(method, uri, version, hs)),
    ensures
        q.len() < head_bytes(method, uri, version, hs).len() ==> (drive_spec(initial_head(), q) matches StepSpec::Next(
            st,
            h,
            r,
        ) && st == ParseStatus::NeedMore && drive_spec(initial_head(), q + more) == drive_spec(
            h,
            r + more,
        )),
        q.len() >= head_bytes(method, uri, version, hs).len() ==> drive_spec(initial_head(), q)
            == StepSpec::Next(
            ParseStatus::Done,
            parsed_head(method, uri, version, hs),
            q.skip(head_bytes(method, uri, version, hs).len() as int),
        ),
{
    let m = initial_head();
    let s = head_bytes(method, uri, version, hs);
    let u = uri_onward(uri, version, hs);
    let lm = method.len() as int;
    lemma_agrees_prefix(q, more, s);
    if q.len() == 0 {
        assert(q + more =~= more);
        return;
    }
    assert(u[0] == uri[0]);
    lemma_method_step(m, method, u, q);
    if q.len() > lm {
        lemma_method_step(m, method, u, q + more);
        let m2 = HeadModel { state: 1, method: Some(method), ..m };
        let rest = q.skip(lm + 1);
        assert((q + more).skip(lm + 1) =~= rest + more);
        lemma_agrees_skip(q + more, s, lm + 1);
        assert(s.skip(lm + 1) =~= u);
        lemma_uri_stage(m2, uri, version, hs, rest, more);
        assert(Seq::<(Seq<u8>, Seq<u8>)>::empty() + parsed_lines(hs) =~= parsed_lines(hs));
        if q.len() >= s.len() {
            assert(rest.skip(u.len() as int) =~= q.skip(s.len() as int));
        }
    }
}

/// What the parser makes of the bytes received so far of a well-formed
/// request head, from its start: while the head has not all arrived, the
/// parser neither fails nor completes the head but asks for more bytes, so
/// that a stream that ends there ends the parse with `Eof`; once all of it
/// has arrived, the parser completes the head with its method, URI and
/// version and its header lines, each with the value that it carries, and
/// leaves the bytes after the head pending.
pub proof fn lemma_parse_well_formed_head(
    method: Seq<u8>,
    uri: Seq<u8>,
    version: Seq<u8>,
    hs: Seq<(Seq<u8>, Seq<u8>)>,
    q: Seq<u8>,
)
    requires
        request_line_ok(method, uri, version),
        lines_ok(hs),
        agrees(q, head_bytes(method, uri, version, hs)),
    ensures
        q.len() < head_bytes(method, uri, version, hs).len() ==> drive_spec(initial_head(), q) is Next
            && drive_spec(initial_head(), q)->Next_0 == ParseStatus::NeedMore,
        q.len() >= head_bytes(method, uri, version, hs).len() ==> drive_spec(initial_head(), q)
            == StepSpec::Next(
            ParseStatus::Done,
            parsed_head(method, uri, version, hs),
            q.skip(head_bytes(method, uri, version, hs).len() as int),
        ),
{
    assert(q + Seq::<u8>::empty() =~= q);
    lemma_head(method, uri, version, hs, q, Seq::empty());
}

/// A well-formed request head that arrives in two pieces is parsed as if
/// it had arrived at once: after the first piece the parser asks for more
/// bytes, and stepping on what it left pending followed by the second piece
/// gives what stepping on both pieces from the start gives. Applied piece
/// by piece, this holds for a head that arrives in any number of pieces.
pub proof fn lemma_parse_resumes(
    method: Seq<u8>,
    uri: Seq<u8>,
    version: Seq<u8>,
    hs: Seq<(Seq<u8>, Seq<u8>)>,
    first: Seq<u8>,
    second: Seq<u8>,
)
    requires
        request_line_ok(method, uri, version),
        lines_ok(hs),
        first.len() < head_bytes(method, uri, version, hs).len(),
        agrees(first + second, head_bytes(method, uri, version, hs)),
    ensures
        drive_spec(initial_head(), first) matches StepSpec::Next(st, h, pending) && st
            == ParseStatus::NeedMore && drive_spec(h, pending + second) == drive_spec(
            initial_head(),
            first + second,
        ),
{
    lemma_head(method, uri, version, hs, first, second);
}

} // verus!
