//! Parsers for command-line arguments of the reverse proxy: port ranges
//! `a-b` or `a`, and the split of `host:ports`.
use vstd::prelude::*;

use std::ops::Range;
use std::time::Duration;
use vstd::string::StringSliceAdditionalSpecFns;

use crate::http1::scan::{find_byte, find_first, lemma_find_byte, lemma_find_byte_is};

verus! {

/// Why text is not a `u16`, as `str::parse::<u16>` reports it.
#[derive(Debug, Clone, Copy, PartialEq, Eq, Structural)]
pub enum IntErrorKind {
    Empty,
    InvalidDigit,
    PosOverflow,
}

pub open spec fn is_digit(b: u8) -> bool {
    48 <= b <= 57
}

/// Reads decimal digits from index `i` on, with `acc` the value of those
/// before: the first non-digit is an invalid digit, a value above 65535 an
/// overflow, whichever comes first from the left.
pub open spec fn fold_digits(d: Seq<u8>, i: int, acc: int) -> Result<u16, IntErrorKind>
    decreases d.len() - i,
{
    if i >= d.len() || i < 0 {
        Ok(acc as u16)
    } else if !is_digit(d[i]) {
        Err(IntErrorKind::InvalidDigit)
    } else if acc * 10 + (d[i] - 48) > 65535 {
        Err(IntErrorKind::PosOverflow)
    } else {
        fold_digits(d, i + 1, acc * 10 + (d[i] - 48))
    }
}

/// `str::parse::<u16>` on the bytes `s`: an optional `+`, then decimal
/// digits, of value at most 65535.
pub open spec fn parse_u16_spec(s: Seq<u8>) -> Result<u16, IntErrorKind> {
    if s.len() == 0 {
        Err(IntErrorKind::Empty)
    } else if s.len() == 1 && (s[0] == 43u8 || s[0] == 45u8) {
        Err(IntErrorKind::InvalidDigit)
    } else if s[0] == 43u8 {
        fold_digits(s, 1, 0)
    } else {
        fold_digits(s, 0, 0)
    }
}

pub proof fn lemma_fold_digits_bound(d: Seq<u8>, i: int, acc: int)
    requires
        0 <= acc <= 65535,
    ensures
        fold_digits(d, i, acc) matches Ok(v) ==> acc <= v,
    decreases d.len() - i,
{
    if 0 <= i < d.len() && is_digit(d[i]) && acc * 10 + (d[i] - 48) <= 65535 {
        lemma_fold_digits_bound(d, i + 1, acc * 10 + (d[i] - 48));
        assert(acc <= acc * 10 + (d[i] - 48));
    }
}

/// Parses the decimal port number in `s[from..to]`.
fn parse_port(s: &[u8], from: usize, to: usize) -> (r: Result<u16, IntErrorKind>)
    requires
        from <= to <= s@.len(),
    ensures
        r == parse_u16_spec(s@.subrange(from as int, to as int)),
{
    let ghost d = s@.subrange(from as int, to as int);
    if from == to {
        return Err(IntErrorKind::Empty);
    }
    if to - from == 1 && (s[from] == 43u8 || s[from] == 45u8) {
        return Err(IntErrorKind::InvalidDigit);
    }
    let mut i: usize = if s[from] == 43u8 {
        from + 1
    } else {
        from
    };
    let mut acc: u32 = 0;
    assert(parse_u16_spec(d) == fold_digits(d, i - from, acc as int));
    while i < to
        invariant
            from <= i <= to,
            to <= s@.len(),
            d == s@.subrange(from as int, to as int),
            acc <= 65535,
            parse_u16_spec(d) == fold_digits(d, i - from, acc as int),
        decreases to - i,
    {
        let c = s[i];
        assert(d[i - from] == c);
        if c < 48u8 || c > 57u8 {
            return Err(IntErrorKind::InvalidDigit);
        }
        let next = acc * 10 + (c - 48u8) as u32;
        if next > 65535 {
            return Err(IntErrorKind::PosOverflow);
        }
        acc = next;
        i += 1;
    }
    Ok(acc as u16)
}

/// The text with which a parse error of `u16` is displayed.
pub open spec fn int_error_text(e: IntErrorKind) -> Seq<char> {
    match e {
        IntErrorKind::Empty => "cannot parse integer from empty string"@,
        IntErrorKind::InvalidDigit => "invalid digit found in string"@,
        IntErrorKind::PosOverflow => "number too large to fit in target type"@,
    }
}

fn int_error_string(e: IntErrorKind) -> (s: String)
    ensures
        s@ == int_error_text(e),
{
    match e {
        IntErrorKind::Empty => "cannot parse integer from empty string".to_owned(),
        IntErrorKind::InvalidDigit => "invalid digit found in string".to_owned(),
        IntErrorKind::PosOverflow => "number too large to fit in target type".to_owned(),
    }
}

/// The message for a port argument with more than one `-`.
pub open spec fn port_range_format_text() -> Seq<char> {
    "Invalid port-range arg, the desired format is `a-b` or `a`"@
}

/// The outcome of parsing a port argument: a range, an error message, or
/// the case of a single port 65535, whose `start + 1` overflows.
pub enum PortsSpec {
    Range(u16, u16),
    Error(Seq<char>),
    Overflow,
}

/// The meaning of a port argument `a-b` (the range `a..b`) or `a` (the
/// range `a..a+1`).
pub open spec fn ports_spec(b: Seq<u8>) -> PortsSpec {
    let k = find_byte(b, 45u8, 0);
    if k == b.len() {
        match parse_u16_spec(b) {
            Ok(p) => if p == 65535 {
                PortsSpec::Overflow
            } else {
                PortsSpec::Range(p, (p + 1) as u16)
            },
            Err(e) => PortsSpec::Error(int_error_text(e)),
        }
    } else {
        let rest = b.skip(k + 1);
        if find_byte(rest, 45u8, 0) != rest.len() {
            PortsSpec::Error(port_range_format_text())
        } else {
            match parse_u16_spec(b.take(k)) {
                Err(e) => PortsSpec::Error(int_error_text(e)),
                Ok(start) => match parse_u16_spec(rest) {
                    Err(e) => PortsSpec::Error(int_error_text(e)),
                    Ok(end) => PortsSpec::Range(start, end),
                },
            }
        }
    }
}

/// Parses a port argument: `a-b` gives the range `a..b` and `a` the range
/// `a..a+1`; an argument with more than one `-`, or a part that is not a
/// `u16`, gives an error message.
pub fn clap_parse_ports(s: &str) -> (r: Result<Range<u16>, String>)
    requires
        !(ports_spec(s.spec_bytes()) is Overflow),
    ensures
        match ports_spec(s.spec_bytes()) {
            PortsSpec::Range(a, b) => r matches Ok(range) && range.start == a && range.end == b,
            PortsSpec::Error(msg) => r matches Err(m) && m@ == msg,
            PortsSpec::Overflow => false,
        },
{
    let b = s.as_bytes();
    proof {
        lemma_find_byte(b@, 45u8, 0);
    }
    let k = find_first(b, 45u8);
    if k == b.len() {
        assert(b@.subrange(0, b@.len() as int) =~= b@);
        let start = match parse_port(b, 0, b.len()) {
            Ok(p) => p,
            Err(e) => return Err(int_error_string(e)),
        };
        return Ok(Range { start, end: start + 1 });
    }
    let rest = &b[k + 1..b.len()];
    assert(rest@ =~= b@.skip(k + 1));
    proof {
        lemma_find_byte(rest@, 45u8, 0);
    }
    let k2 = find_first(rest, 45u8);
    if k2 != rest.len() {
        return Err("Invalid port-range arg, the desired format is `a-b` or `a`".to_owned());
    }
    assert(b@.subrange(0, k as int) =~= b@.take(k as int));
    assert(b@.subrange(k + 1, b@.len() as int) =~= rest@);
    let start = match parse_port(b, 0, k) {
        Ok(p) => p,
        Err(e) => return Err(int_error_string(e)),
    };
    let end = match parse_port(b, k + 1, b.len()) {
        Ok(p) => p,
        Err(e) => return Err(int_error_string(e)),
    };
    Ok(Range { start, end })
}

/// Where `host:ports` splits: the index of its one `:`, or `None` when the
/// argument does not hold exactly one.
pub fn sockaddr_arg_split(s: &str) -> (r: Option<usize>)
    ensures
        ({
            let b = s.spec_bytes();
            let k = find_byte(b, 58u8, 0);
            &&& (k == b.len() || find_byte(b.skip(k + 1), 58u8, 0) != b.len() - k - 1) ==> r
                is None
            &&& (k < b.len() && find_byte(b.skip(k + 1), 58u8, 0) == b.len() - k - 1) ==> r
                == Some(k as usize)
        }),
{
    let b = s.as_bytes();
    proof {
        lemma_find_byte(b@, 58u8, 0);
    }
    let k = find_first(b, 58u8);
    if k == b.len() {
        return Option::None;
    }
    let rest = &b[k + 1..b.len()];
    assert(rest@ =~= b@.skip(k + 1));
    let k2 = find_first(rest, 58u8);
    if k2 != rest.len() {
        return Option::None;
    }
    Some(k)
}


/// What `duration_str::parse` makes of a text: the duration it names, or
/// the text of the error that it reports. A function of the text alone.
pub uninterp spec fn duration_text(s: Seq<char>) -> Result<Duration, Seq<char>>;

/// `duration_str::parse`: reads a duration such as `10s`, `1m` or
/// `1h 30m`, or reports why it cannot; the contract ties both to the name
/// `duration_text`.
#[verifier::external_body]
fn duration_str_parse(s: &str) -> (r: Result<Duration, String>)
    ensures
        r matches Ok(x) ==> duration_text(s@) is Ok && duration_text(s@)->Ok_0 == x,
        r matches Err(e) ==> duration_text(s@) is Err && duration_text(s@)->Err_0 == e@,
{
    duration_str::parse(s)
}

/// Parses a duration argument such as `10s` or `1m`; the error is the text
/// that the duration parser reports.
pub fn clap_parse_duration(s: &str) -> (r: Result<Duration, String>)
    ensures
        match duration_text(s@) {
            Ok(d) => r matches Ok(x) && x == d,
            Err(m) => r matches Err(e) && e@ == m,
        },
{
    duration_str_parse(s)
}


/// The decimal text of `n`, as bytes, most significant digit first and
/// without leading zeros.
pub open spec fn decimal_bytes(n: nat) -> Seq<u8>
    decreases n,
{
    if n < 10 {
        seq![(n + 48) as u8]
    } else {
        decimal_bytes(n / 10).push((n % 10 + 48) as u8)
    }
}

/// The value of a run of decimal digits, most significant first.
pub open spec fn digits_value(d: Seq<u8>) -> int
    decreases d.len(),
{
    if d.len() == 0 {
        0
    } else {
        digits_value(d.drop_last()) * 10 + (d.last() - 48)
    }
}

proof fn lemma_decimal_bytes(n: nat)
    ensures
        decimal_bytes(n).len() > 0,
        forall|i: int| 0 <= i < decimal_bytes(n).len() ==> is_digit(#[trigger] decimal_bytes(n)[i]),
        digits_value(decimal_bytes(n)) == n,
    decreases n,
{
    if n >= 10 {
        lemma_decimal_bytes(n / 10);
        let d = decimal_bytes(n);
        assert(d.drop_last() =~= decimal_bytes(n / 10));
        assert(d.last() == (n % 10 + 48) as u8);
        assert(((n % 10 + 48) as u8) as int == n % 10 + 48);
        assert(n == (n / 10) * 10 + n % 10);
        assert(digits_value(d.drop_last()) == n / 10);
        assert(digits_value(d) == digits_value(d.drop_last()) * 10 + (d.last() - 48));
        assert forall|i: int| 0 <= i < d.len() implies is_digit(#[trigger] d[i]) by {
            if i < d.len() - 1 {
                assert(d[i] == decimal_bytes(n / 10)[i]);
            }
        }
    } else {
        assert(decimal_bytes(n).drop_last() =~= Seq::<u8>::empty());
        assert(((n + 48) as u8) as int == n + 48);
        let d = decimal_bytes(n);
        assert(digits_value(d.drop_last()) == 0);
        assert(digits_value(d) == digits_value(d.drop_last()) * 10 + (d.last() - 48));
    }
}

proof fn lemma_digits_value_prefix(d: Seq<u8>, j: int)
    requires
        0 <= j <= d.len(),
        forall|i: int| 0 <= i < d.len() ==> is_digit(#[trigger] d[i]),
    ensures
        0 <= digits_value(d.take(j)) <= digits_value(d),
    decreases d.len(),
{
    if d.len() > 0 {
        let p = d.drop_last();
        assert forall|i: int| 0 <= i < p.len() implies is_digit(#[trigger] p[i]) by {
            assert(p[i] == d[i]);
        }
        if j == d.len() {
            assert(d.take(j) =~= d);
            lemma_digits_value_prefix(p, p.len() as int);
            assert(p.take(p.len() as int) =~= p);
        } else {
            lemma_digits_value_prefix(p, j);
            assert(d.take(j) =~= p.take(j));
            lemma_digits_value_prefix(p, p.len() as int);
            assert(p.take(p.len() as int) =~= p);
            assert(is_digit(d.last()));
        }
    } else {
        assert(d.take(j) =~= d);
    }
}

proof fn lemma_fold_digits_value(d: Seq<u8>, i: int)
    requires
        0 <= i <= d.len(),
        forall|k: int| 0 <= k < d.len() ==> is_digit(#[trigger] d[k]),
        digits_value(d) <= 65535,
    ensures
        fold_digits(d, i, digits_value(d.take(i))) == Ok::<u16, IntErrorKind>(digits_value(d) as u16),
    decreases d.len() - i,
{
    if i == d.len() {
        assert(d.take(i) =~= d);
    } else {
        let t = d.take(i + 1);
        assert(t.drop_last() =~= d.take(i));
        assert(t.last() == d[i]);
        lemma_digits_value_prefix(d, i + 1);
        lemma_fold_digits_value(d, i + 1);
    }
}

/// `str::parse::<u16>` reads the decimal text of every number up to 65535
/// back as that number.
pub proof fn lemma_parse_u16_decimal(n: nat)
    requires
        n <= 65535,
    ensures
        parse_u16_spec(decimal_bytes(n)) == Ok::<u16, IntErrorKind>(n as u16),
{
    lemma_decimal_bytes(n);
    let d = decimal_bytes(n);
    assert(is_digit(d[0]));
    assert(d.take(0) =~= Seq::<u8>::empty());
    lemma_fold_digits_value(d, 0);
}

/// The port argument of a number, or of two numbers joined by `-`, means
/// those numbers: the decimal text of `a` (below 65535) gives the range
/// `a..a+1`, and that of `a`, a `-` and that of `b` gives `a..b`.
pub proof fn lemma_ports_of_decimals(a: nat, b: nat)
    requires
        a <= 65535,
        b <= 65535,
    ensures
        a < 65535 ==> ports_spec(decimal_bytes(a)) == PortsSpec::Range(a as u16, (a + 1) as u16),
        ports_spec(decimal_bytes(a) + seq![45u8] + decimal_bytes(b)) == PortsSpec::Range(
            a as u16,
            b as u16,
        ),
{
    lemma_parse_u16_decimal(a);
    lemma_parse_u16_decimal(b);
    lemma_decimal_bytes(a);
    lemma_decimal_bytes(b);
    let da = decimal_bytes(a);
    let db = decimal_bytes(b);
    assert forall|j: int| 0 <= j < da.len() implies #[trigger] da[j] != 45u8 by {
        assert(is_digit(da[j]));
    }
    assert forall|j: int| 0 <= j < db.len() implies #[trigger] db[j] != 45u8 by {
        assert(is_digit(db[j]));
    }
    lemma_find_byte_is(da, 45u8, da.len() as int);
    lemma_find_byte_is(db, 45u8, db.len() as int);
    let x = da + seq![45u8] + db;
    assert forall|j: int| 0 <= j < da.len() implies #[trigger] x[j] != 45u8 by {
        assert(x[j] == da[j]);
    }
    assert(x[da.len() as int] == 45u8);
    lemma_find_byte_is(x, 45u8, da.len() as int);
    assert(x.skip(da.len() + 1 as int) =~= db);
    assert(x.take(da.len() as int) =~= da);
}

} // verus!
