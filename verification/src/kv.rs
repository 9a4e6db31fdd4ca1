//! Encoding of the keys and values of a key-value store: strings and byte
//! strings are stored as their bytes, numbers as their native-endian bytes.
use vstd::prelude::*;

use std::io;
use std::string::FromUtf8Error;
use vstd::endian::{endianness, Endian};
use vstd::string::StringExecFns;

use crate::text::{decimal, u64_to_decimal};

verus! {

#[verifier::external_type_specification]
#[verifier::external_body]
pub struct ExFromUtf8Error(std::string::FromUtf8Error);

/// The text that UTF-8 bytes decode to, or `None` when they are not UTF-8.
pub uninterp spec fn utf8_decode(b: Seq<u8>) -> Option<Seq<char>>;

/// `String::from_utf8`: the text of the bytes, when they are UTF-8.
#[verifier::external_body]
fn string_from_utf8(bytes: Vec<u8>) -> (r: Result<String, FromUtf8Error>)
    ensures
        r is Ok <==> utf8_decode(bytes@) is Some,
        r matches Ok(s) ==> s@ == utf8_decode(bytes@)->Some_0,
{
    String::from_utf8(bytes)
}

/// `io::Error::new(io::ErrorKind::InvalidData, err)`: the error of bytes that
/// are not UTF-8.
#[verifier::external_body]
fn invalid_utf8_error(err: FromUtf8Error) -> io::Error {
    io::Error::new(io::ErrorKind::InvalidData, err)
}

/// `io::Error::new(io::ErrorKind::InvalidInput, msg)`: an error of invalid
/// input carrying the message `msg`.
#[verifier::external_body]
fn invalid_input_error(msg: String) -> io::Error {
    io::Error::new(io::ErrorKind::InvalidInput, msg)
}

/// The message for bytes of the wrong length for a number of `size`
/// bytes: `num data len mismatch. ` and the size in decimal.
fn length_mismatch_message(size: u64) -> (msg: String)
    ensures
        msg@ == "num data len mismatch. "@ + decimal(size as nat),
{
    let mut msg = String::from_str("num data len mismatch. ");
    msg.append(u64_to_decimal(size).as_str());
    msg
}

/// The error of bytes of the wrong length for a number of `size` bytes:
/// invalid input, with the message of [`length_mismatch_message`].
fn length_mismatch_error(size: u64) -> io::Error {
    invalid_input_error(length_mismatch_message(size))
}

/// The `n` least significant bytes of `v` in two's complement, least
/// significant first: the little-endian representation of an `n`-byte
/// integer whose value is `v`.
pub open spec fn le_bytes(v: int, n: nat) -> Seq<u8>
    decreases n,
{
    if n == 0 {
        Seq::empty()
    } else {
        seq![(v % 256) as u8] + le_bytes(v / 256, (n - 1) as nat)
    }
}

/// The representation of an `n`-byte integer whose value is `v` in the
/// byte order of the executing hardware (vstd's `endianness()`).
pub open spec fn ne_bytes(v: int, n: nat) -> Seq<u8> {
    match endianness() {
        Endian::Little => le_bytes(v, n),
        Endian::Big => le_bytes(v, n).reverse(),
    }
}

/// Whether `b` is the representation of an `n`-byte integer whose value is
/// `v` in the hardware's byte order.
pub open spec fn is_ne_bytes(b: Seq<u8>, v: int, n: nat) -> bool {
    b == ne_bytes(v, n)
}

/// How many values `n` bytes can hold: `256^n`.
pub open spec fn byte_range(n: nat) -> int
    decreases n,
{
    if n == 0 {
        1
    } else {
        256 * byte_range((n - 1) as nat)
    }
}

proof fn lemma_byte_range_pos(n: nat)
    ensures
        byte_range(n) > 0,
    decreases n,
{
    if n > 0 {
        lemma_byte_range_pos((n - 1) as nat);
    }
}

/// Equal little-endian bytes differ by a multiple of `256^n`.
proof fn lemma_le_bytes_diff(x: int, y: int, n: nat) -> (k: int)
    requires
        le_bytes(x, n) == le_bytes(y, n),
    ensures
        x - y == k * byte_range(n),
    decreases n,
{
    if n == 0 {
        x - y
    } else {
        let bx = le_bytes(x, n);
        let by = le_bytes(y, n);
        assert(bx[0] == by[0]);
        assert(x % 256 == y % 256);
        assert(bx.skip(1) =~= le_bytes(x / 256, (n - 1) as nat));
        assert(by.skip(1) =~= le_bytes(y / 256, (n - 1) as nat));
        let k2 = lemma_le_bytes_diff(x / 256, y / 256, (n - 1) as nat);
        let r2 = byte_range((n - 1) as nat);
        assert(x == 256 * (x / 256) + x % 256);
        assert(y == 256 * (y / 256) + y % 256);
        assert(x - y == 256 * (x / 256 - y / 256));
        assert(256 * (k2 * r2) == k2 * (256 * r2)) by (nonlinear_arith);
        k2
    }
}

/// Bytes read back give the number that was written: two numbers in the
/// same range of `256^n` values (that of an `n`-byte integer type) whose
/// `n` bytes in the hardware's byte order are the same `b` are equal. So
/// the number that `from_bytes` reads from what `to_bytes` wrote, which
/// both state in that byte order, is the number written.
pub proof fn lemma_from_bytes_inverts_to_bytes(b: Seq<u8>, x: int, y: int, n: nat, lo: int)
    requires
        is_ne_bytes(b, x, n),
        is_ne_bytes(b, y, n),
        lo <= x < lo + byte_range(n),
        lo <= y < lo + byte_range(n),
    ensures
        x == y,
{
    if endianness() is Big {
        assert(le_bytes(x, n) =~= le_bytes(x, n).reverse().reverse());
        assert(le_bytes(y, n) =~= le_bytes(y, n).reverse().reverse());
    }
    let k = lemma_le_bytes_diff(x, y, n);
    let r = byte_range(n);
    lemma_byte_range_pos(n);
    assert(k == 0) by (nonlinear_arith)
        requires
            r > 0,
            x - y == k * r,
            -r < x - y < r,
    ;
}

/// A copy of `buf`.
fn copy_bytes(buf: &[u8]) -> (v: Vec<u8>)
    ensures
        v@ == buf@,
{
    let mut v: Vec<u8> = Vec::new();
    v.extend_from_slice(buf);
    v
}

/// A key or value that can be stored: it turns into bytes.
pub trait KeyValue {
    /// The stored bytes: a type that can be viewed as `&[u8]` (every
    /// implementation here is).
    type Stored;

    /// The bytes to store.
    fn to_bytes(self) -> io::Result<Self::Stored>;
}

/// A key or value that can be read back from stored bytes.
pub trait KeyValueReturn {
    /// The value the stored bytes stand for.
    fn from_bytes(buf: &[u8]) -> io::Result<Self> where Self: Sized;
}

impl<'a> KeyValue for &'a str {
    type Stored = &'a str;

    fn to_bytes(self) -> (r: io::Result<&'a str>)
        ensures
            r matches Ok(s) && s == self,
    {
        Ok(self)
    }
}

impl KeyValue for String {
    type Stored = String;

    fn to_bytes(self) -> (r: io::Result<String>)
        ensures
            r matches Ok(s) && s == self,
    {
        Ok(self)
    }
}

impl KeyValueReturn for String {
    fn from_bytes(buf: &[u8]) -> (r: io::Result<String>)
        ensures
            r is Ok <==> utf8_decode(buf@) is Some,
            r matches Ok(s) ==> s@ == utf8_decode(buf@)->Some_0,
    {
        match string_from_utf8(copy_bytes(buf)) {
            Ok(s) => Ok(s),
            Err(err) => Err(invalid_utf8_error(err)),
        }
    }
}

impl<'a> KeyValue for &'a [u8] {
    type Stored = &'a [u8];

    fn to_bytes(self) -> (r: io::Result<&'a [u8]>)
        ensures
            r matches Ok(s) && s@ == self@,
    {
        Ok(self)
    }
}

impl KeyValue for Vec<u8> {
    type Stored = Vec<u8>;

    fn to_bytes(self) -> (r: io::Result<Vec<u8>>)
        ensures
            r matches Ok(s) && s@ == self@,
    {
        Ok(self)
    }
}

impl KeyValueReturn for Vec<u8> {
    fn from_bytes(buf: &[u8]) -> (r: io::Result<Vec<u8>>)
        ensures
            r matches Ok(v) && v@ == buf@,
    {
        Ok(copy_bytes(buf))
    }
}

/// `i8::to_ne_bytes`: the 1 bytes of `x` in the machine's byte order,
/// the hardware's `endianness()` (vstd).
#[verifier::external_body]
fn i8_to_ne_bytes(x: i8) -> (b: [u8; 1])
    ensures
        is_ne_bytes(b@, x as int, 1),
{
    x.to_ne_bytes()
}

/// `i8::from_ne_bytes`: the number whose bytes, in the machine's byte order
/// (the hardware's `endianness()`, vstd), are `b`.
#[verifier::external_body]
fn i8_from_ne_bytes(b: [u8; 1]) -> (x: i8)
    ensures
        is_ne_bytes(b@, x as int, 1),
{
    i8::from_ne_bytes(b)
}

impl KeyValue for i8 {
    type Stored = [u8; 1];

    /// The bytes of the number in the machine's byte order.
    fn to_bytes(self) -> (r: io::Result<[u8; 1]>)
        ensures
            r matches Ok(b) && is_ne_bytes(b@, self as int, 1),
    {
        Ok(i8_to_ne_bytes(self))
    }
}

impl KeyValueReturn for i8 {
    /// Fails unless `buf` holds exactly the 1 bytes of a `i8`.
    fn from_bytes(buf: &[u8]) -> (r: io::Result<i8>)
        ensures
            r is Ok <==> buf@.len() == 1,
            r matches Ok(x) ==> is_ne_bytes(buf@, x as int, 1),
    {
        if buf.len() != 1 {
            return Err(length_mismatch_error(1));
        }
        let mut array: [u8; 1] = [0u8; 1];
        let mut i: usize = 0;
        while i < 1
            invariant
                i <= 1,
                buf@.len() == 1,
                forall|j: int| 0 <= j < i ==> array@[j] == buf@[j],
            decreases 1 - i,
        {
            array[i] = buf[i];
            i = i + 1;
        }
        assert(array@ =~= buf@);
        Ok(i8_from_ne_bytes(array))
    }
}

/// `i16::to_ne_bytes`: the 2 bytes of `x` in the machine's byte order,
/// the hardware's `endianness()` (vstd).
#[verifier::external_body]
fn i16_to_ne_bytes(x: i16) -> (b: [u8; 2])
    ensures
        is_ne_bytes(b@, x as int, 2),
{
    x.to_ne_bytes()
}

/// `i16::from_ne_bytes`: the number whose bytes, in the machine's byte order
/// (the hardware's `endianness()`, vstd), are `b`.
#[verifier::external_body]
fn i16_from_ne_bytes(b: [u8; 2]) -> (x: i16)
    ensures
        is_ne_bytes(b@, x as int, 2),
{
    i16::from_ne_bytes(b)
}

impl KeyValue for i16 {
    type Stored = [u8; 2];

    /// The bytes of the number in the machine's byte order.
    fn to_bytes(self) -> (r: io::Result<[u8; 2]>)
        ensures
            r matches Ok(b) && is_ne_bytes(b@, self as int, 2),
    {
        Ok(i16_to_ne_bytes(self))
    }
}

impl KeyValueReturn for i16 {
    /// Fails unless `buf` holds exactly the 2 bytes of a `i16`.
    fn from_bytes(buf: &[u8]) -> (r: io::Result<i16>)
        ensures
            r is Ok <==> buf@.len() == 2,
            r matches Ok(x) ==> is_ne_bytes(buf@, x as int, 2),
    {
        if buf.len() != 2 {
            return Err(length_mismatch_error(2));
        }
        let mut array: [u8; 2] = [0u8; 2];
        let mut i: usize = 0;
        while i < 2
            invariant
                i <= 2,
                buf@.len() == 2,
                forall|j: int| 0 <= j < i ==> array@[j] == buf@[j],
            decreases 2 - i,
        {
            array[i] = buf[i];
            i = i + 1;
        }
        assert(array@ =~= buf@);
        Ok(i16_from_ne_bytes(array))
    }
}

/// `i32::to_ne_bytes`: the 4 bytes of `x` in the machine's byte order,
/// the hardware's `endianness()` (vstd).
#[verifier::external_body]
fn i32_to_ne_bytes(x: i32) -> (b: [u8; 4])
    ensures
        is_ne_bytes(b@, x as int, 4),
{
    x.to_ne_bytes()
}

/// `i32::from_ne_bytes`: the number whose bytes, in the machine's byte order
/// (the hardware's `endianness()`, vstd), are `b`.
#[verifier::external_body]
fn i32_from_ne_bytes(b: [u8; 4]) -> (x: i32)
    ensures
        is_ne_bytes(b@, x as int, 4),
{
    i32::from_ne_bytes(b)
}

impl KeyValue for i32 {
    type Stored = [u8; 4];

    /// The bytes of the number in the machine's byte order.
    fn to_bytes(self) -> (r: io::Result<[u8; 4]>)
        ensures
            r matches Ok(b) && is_ne_bytes(b@, self as int, 4),
    {
        Ok(i32_to_ne_bytes(self))
    }
}

impl KeyValueReturn for i32 {
    /// Fails unless `buf` holds exactly the 4 bytes of a `i32`.
    fn from_bytes(buf: &[u8]) -> (r: io::Result<i32>)
        ensures
            r is Ok <==> buf@.len() == 4,
            r matches Ok(x) ==> is_ne_bytes(buf@, x as int, 4),
    {
        if buf.len() != 4 {
            return Err(length_mismatch_error(4));
        }
        let mut array: [u8; 4] = [0u8; 4];
        let mut i: usize = 0;
        while i < 4
            invariant
                i <= 4,
                buf@.len() == 4,
                forall|j: int| 0 <= j < i ==> array@[j] == buf@[j],
            decreases 4 - i,
        {
            array[i] = buf[i];
            i = i + 1;
        }
        assert(array@ =~= buf@);
        Ok(i32_from_ne_bytes(array))
    }
}

/// `i64::to_ne_bytes`: the 8 bytes of `x` in the machine's byte order,
/// the hardware's `endianness()` (vstd).
#[verifier::external_body]
fn i64_to_ne_bytes(x: i64) -> (b: [u8; 8])
    ensures
        is_ne_bytes(b@, x as int, 8),
{
    x.to_ne_bytes()
}

/// `i64::from_ne_bytes`: the number whose bytes, in the machine's byte order
/// (the hardware's `endianness()`, vstd), are `b`.
#[verifier::external_body]
fn i64_from_ne_bytes(b: [u8; 8]) -> (x: i64)
    ensures
        is_ne_bytes(b@, x as int, 8),
{
    i64::from_ne_bytes(b)
}

impl KeyValue for i64 {
    type Stored = [u8; 8];

    /// The bytes of the number in the machine's byte order.
    fn to_bytes(self) -> (r: io::Result<[u8; 8]>)
        ensures
            r matches Ok(b) && is_ne_bytes(b@, self as int, 8),
    {
        Ok(i64_to_ne_bytes(self))
    }
}

impl KeyValueReturn for i64 {
    /// Fails unless `buf` holds exactly the 8 bytes of a `i64`.
    fn from_bytes(buf: &[u8]) -> (r: io::Result<i64>)
        ensures
            r is Ok <==> buf@.len() == 8,
            r matches Ok(x) ==> is_ne_bytes(buf@, x as int, 8),
    {
        if buf.len() != 8 {
            return Err(length_mismatch_error(8));
        }
        let mut array: [u8; 8] = [0u8; 8];
        let mut i: usize = 0;
        while i < 8
            invariant
                i <= 8,
                buf@.len() == 8,
                forall|j: int| 0 <= j < i ==> array@[j] == buf@[j],
            decreases 8 - i,
        {
            array[i] = buf[i];
            i = i + 1;
        }
        assert(array@ =~= buf@);
        Ok(i64_from_ne_bytes(array))
    }
}

/// `i128::to_ne_bytes`: the 16 bytes of `x` in the machine's byte order,
/// the hardware's `endianness()` (vstd).
#[verifier::external_body]
fn i128_to_ne_bytes(x: i128) -> (b: [u8; 16])
    ensures
        is_ne_bytes(b@, x as int, 16),
{
    x.to_ne_bytes()
}

/// `i128::from_ne_bytes`: the number whose bytes, in the machine's byte order
/// (the hardware's `endianness()`, vstd), are `b`.
#[verifier::external_body]
fn i128_from_ne_bytes(b: [u8; 16]) -> (x: i128)
    ensures
        is_ne_bytes(b@, x as int, 16),
{
    i128::from_ne_bytes(b)
}

impl KeyValue for i128 {
    type Stored = [u8; 16];

    /// The bytes of the number in the machine's byte order.
    fn to_bytes(self) -> (r: io::Result<[u8; 16]>)
        ensures
            r matches Ok(b) && is_ne_bytes(b@, self as int, 16),
    {
        Ok(i128_to_ne_bytes(self))
    }
}

impl KeyValueReturn for i128 {
    /// Fails unless `buf` holds exactly the 16 bytes of a `i128`.
    fn from_bytes(buf: &[u8]) -> (r: io::Result<i128>)
        ensures
            r is Ok <==> buf@.len() == 16,
            r matches Ok(x) ==> is_ne_bytes(buf@, x as int, 16),
    {
        if buf.len() != 16 {
            return Err(length_mismatch_error(16));
        }
        let mut array: [u8; 16] = [0u8; 16];
        let mut i: usize = 0;
        while i < 16
            invariant
                i <= 16,
                buf@.len() == 16,
                forall|j: int| 0 <= j < i ==> array@[j] == buf@[j],
            decreases 16 - i,
        {
            array[i] = buf[i];
            i = i + 1;
        }
        assert(array@ =~= buf@);
        Ok(i128_from_ne_bytes(array))
    }
}

/// `isize::to_ne_bytes`: the 8 bytes of `x` in the machine's byte order,
/// the hardware's `endianness()` (vstd).
#[verifier::external_body]
fn isize_to_ne_bytes(x: isize) -> (b: [u8; 8])
    ensures
        is_ne_bytes(b@, x as int, 8),
{
    x.to_ne_bytes()
}

/// `isize::from_ne_bytes`: the number whose bytes, in the machine's byte order
/// (the hardware's `endianness()`, vstd), are `b`.
#[verifier::external_body]
fn isize_from_ne_bytes(b: [u8; 8]) -> (x: isize)
    ensures
        is_ne_bytes(b@, x as int, 8),
{
    isize::from_ne_bytes(b)
}

impl KeyValue for isize {
    type Stored = [u8; 8];

    /// The bytes of the number in the machine's byte order.
    fn to_bytes(self) -> (r: io::Result<[u8; 8]>)
        ensures
            r matches Ok(b) && is_ne_bytes(b@, self as int, 8),
    {
        Ok(isize_to_ne_bytes(self))
    }
}

impl KeyValueReturn for isize {
    /// Fails unless `buf` holds exactly the 8 bytes of a `isize`.
    fn from_bytes(buf: &[u8]) -> (r: io::Result<isize>)
        ensures
            r is Ok <==> buf@.len() == 8,
            r matches Ok(x) ==> is_ne_bytes(buf@, x as int, 8),
    {
        if buf.len() != 8 {
            return Err(length_mismatch_error(8));
        }
        let mut array: [u8; 8] = [0u8; 8];
        let mut i: usize = 0;
        while i < 8
            invariant
                i <= 8,
                buf@.len() == 8,
                forall|j: int| 0 <= j < i ==> array@[j] == buf@[j],
            decreases 8 - i,
        {
            array[i] = buf[i];
            i = i + 1;
        }
        assert(array@ =~= buf@);
        Ok(isize_from_ne_bytes(array))
    }
}

/// `u8::to_ne_bytes`: the 1 bytes of `x` in the machine's byte order,
/// the hardware's `endianness()` (vstd).
#[verifier::external_body]
fn u8_to_ne_bytes(x: u8) -> (b: [u8; 1])
    ensures
        is_ne_bytes(b@, x as int, 1),
{
    x.to_ne_bytes()
}

/// `u8::from_ne_bytes`: the number whose bytes, in the machine's byte order
/// (the hardware's `endianness()`, vstd), are `b`.
#[verifier::external_body]
fn u8_from_ne_bytes(b: [u8; 1]) -> (x: u8)
    ensures
        is_ne_bytes(b@, x as int, 1),
{
    u8::from_ne_bytes(b)
}

impl KeyValue for u8 {
    type Stored = [u8; 1];

    /// The bytes of the number in the machine's byte order.
    fn to_bytes(self) -> (r: io::Result<[u8; 1]>)
        ensures
            r matches Ok(b) && is_ne_bytes(b@, self as int, 1),
    {
        Ok(u8_to_ne_bytes(self))
    }
}

impl KeyValueReturn for u8 {
    /// Fails unless `buf` holds exactly the 1 bytes of a `u8`.
    fn from_bytes(buf: &[u8]) -> (r: io::Result<u8>)
        ensures
            r is Ok <==> buf@.len() == 1,
            r matches Ok(x) ==> is_ne_bytes(buf@, x as int, 1),
    {
        if buf.len() != 1 {
            return Err(length_mismatch_error(1));
        }
        let mut array: [u8; 1] = [0u8; 1];
        let mut i: usize = 0;
        while i < 1
            invariant
                i <= 1,
                buf@.len() == 1,
                forall|j: int| 0 <= j < i ==> array@[j] == buf@[j],
            decreases 1 - i,
        {
            array[i] = buf[i];
            i = i + 1;
        }
        assert(array@ =~= buf@);
        Ok(u8_from_ne_bytes(array))
    }
}

/// `u16::to_ne_bytes`: the 2 bytes of `x` in the machine's byte order,
/// the hardware's `endianness()` (vstd).
#[verifier::external_body]
fn u16_to_ne_bytes(x: u16) -> (b: [u8; 2])
    ensures
        is_ne_bytes(b@, x as int, 2),
{
    x.to_ne_bytes()
}

/// `u16::from_ne_bytes`: the number whose bytes, in the machine's byte order
/// (the hardware's `endianness()`, vstd), are `b`.
#[verifier::external_body]
fn u16_from_ne_bytes(b: [u8; 2]) -> (x: u16)
    ensures
        is_ne_bytes(b@, x as int, 2),
{
    u16::from_ne_bytes(b)
}

impl KeyValue for u16 {
    type Stored = [u8; 2];

    /// The bytes of the number in the machine's byte order.
    fn to_bytes(self) -> (r: io::Result<[u8; 2]>)
        ensures
            r matches Ok(b) && is_ne_bytes(b@, self as int, 2),
    {
        Ok(u16_to_ne_bytes(self))
    }
}

impl KeyValueReturn for u16 {
    /// Fails unless `buf` holds exactly the 2 bytes of a `u16`.
    fn from_bytes(buf: &[u8]) -> (r: io::Result<u16>)
        ensures
            r is Ok <==> buf@.len() == 2,
            r matches Ok(x) ==> is_ne_bytes(buf@, x as int, 2),
    {
        if buf.len() != 2 {
            return Err(length_mismatch_error(2));
        }
        let mut array: [u8; 2] = [0u8; 2];
        let mut i: usize = 0;
        while i < 2
            invariant
                i <= 2,
                buf@.len() == 2,
                forall|j: int| 0 <= j < i ==> array@[j] == buf@[j],
            decreases 2 - i,
        {
            array[i] = buf[i];
            i = i + 1;
        }
        assert(array@ =~= buf@);
        Ok(u16_from_ne_bytes(array))
    }
}

/// `u32::to_ne_bytes`: the 4 bytes of `x` in the machine's byte order,
/// the hardware's `endianness()` (vstd).
#[verifier::external_body]
fn u32_to_ne_bytes(x: u32) -> (b: [u8; 4])
    ensures
        is_ne_bytes(b@, x as int, 4),
{
    x.to_ne_bytes()
}

/// `u32::from_ne_bytes`: the number whose bytes, in the machine's byte order
/// (the hardware's `endianness()`, vstd), are `b`.
#[verifier::external_body]
fn u32_from_ne_bytes(b: [u8; 4]) -> (x: u32)
    ensures
        is_ne_bytes(b@, x as int, 4),
{
    u32::from_ne_bytes(b)
}

impl KeyValue for u32 {
    type Stored = [u8; 4];

    /// The bytes of the number in the machine's byte order.
    fn to_bytes(self) -> (r: io::Result<[u8; 4]>)
        ensures
            r matches Ok(b) && is_ne_bytes(b@, self as int, 4),
    {
        Ok(u32_to_ne_bytes(self))
    }
}

impl KeyValueReturn for u32 {
    /// Fails unless `buf` holds exactly the 4 bytes of a `u32`.
    fn from_bytes(buf: &[u8]) -> (r: io::Result<u32>)
        ensures
            r is Ok <==> buf@.len() == 4,
            r matches Ok(x) ==> is_ne_bytes(buf@, x as int, 4),
    {
        if buf.len() != 4 {
            return Err(length_mismatch_error(4));
        }
        let mut array: [u8; 4] = [0u8; 4];
        let mut i: usize = 0;
        while i < 4
            invariant
                i <= 4,
                buf@.len() == 4,
                forall|j: int| 0 <= j < i ==> array@[j] == buf@[j],
            decreases 4 - i,
        {
            array[i] = buf[i];
            i = i + 1;
        }
        assert(array@ =~= buf@);
        Ok(u32_from_ne_bytes(array))
    }
}

/// `u64::to_ne_bytes`: the 8 bytes of `x` in the machine's byte order,
/// the hardware's `endianness()` (vstd).
#[verifier::external_body]
fn u64_to_ne_bytes(x: u64) -> (b: [u8; 8])
    ensures
        is_ne_bytes(b@, x as int, 8),
{
    x.to_ne_bytes()
}

/// `u64::from_ne_bytes`: the number whose bytes, in the machine's byte order
/// (the hardware's `endianness()`, vstd), are `b`.
#[verifier::external_body]
fn u64_from_ne_bytes(b: [u8; 8]) -> (x: u64)
    ensures
        is_ne_bytes(b@, x as int, 8),
{
    u64::from_ne_bytes(b)
}

impl KeyValue for u64 {
    type Stored = [u8; 8];

    /// The bytes of the number in the machine's byte order.
    fn to_bytes(self) -> (r: io::Result<[u8; 8]>)
        ensures
            r matches Ok(b) && is_ne_bytes(b@, self as int, 8),
    {
        Ok(u64_to_ne_bytes(self))
    }
}

impl KeyValueReturn for u64 {
    /// Fails unless `buf` holds exactly the 8 bytes of a `u64`.
    fn from_bytes(buf: &[u8]) -> (r: io::Result<u64>)
        ensures
            r is Ok <==> buf@.len() == 8,
            r matches Ok(x) ==> is_ne_bytes(buf@, x as int, 8),
    {
        if buf.len() != 8 {
            return Err(length_mismatch_error(8));
        }
        let mut array: [u8; 8] = [0u8; 8];
        let mut i: usize = 0;
        while i < 8
            invariant
                i <= 8,
                buf@.len() == 8,
                forall|j: int| 0 <= j < i ==> array@[j] == buf@[j],
            decreases 8 - i,
        {
            array[i] = buf[i];
            i = i + 1;
        }
        assert(array@ =~= buf@);
        Ok(u64_from_ne_bytes(array))
    }
}

/// `u128::to_ne_bytes`: the 16 bytes of `x` in the machine's byte order,
/// the hardware's `endianness()` (vstd).
#[verifier::external_body]
fn u128_to_ne_bytes(x: u128) -> (b: [u8; 16])
    ensures
        is_ne_bytes(b@, x as int, 16),
{
    x.to_ne_bytes()
}

/// `u128::from_ne_bytes`: the number whose bytes, in the machine's byte order
/// (the hardware's `endianness()`, vstd), are `b`.
#[verifier::external_body]
fn u128_from_ne_bytes(b: [u8; 16]) -> (x: u128)
    ensures
        is_ne_bytes(b@, x as int, 16),
{
    u128::from_ne_bytes(b)
}

impl KeyValue for u128 {
    type Stored = [u8; 16];

    /// The bytes of the number in the machine's byte order.
    fn to_bytes(self) -> (r: io::Result<[u8; 16]>)
        ensures
            r matches Ok(b) && is_ne_bytes(b@, self as int, 16),
    {
        Ok(u128_to_ne_bytes(self))
    }
}

impl KeyValueReturn for u128 {
    /// Fails unless `buf` holds exactly the 16 bytes of a `u128`.
    fn from_bytes(buf: &[u8]) -> (r: io::Result<u128>)
        ensures
            r is Ok <==> buf@.len() == 16,
            r matches Ok(x) ==> is_ne_bytes(buf@, x as int, 16),
    {
        if buf.len() != 16 {
            return Err(length_mismatch_error(16));
        }
        let mut array: [u8; 16] = [0u8; 16];
        let mut i: usize = 0;
        while i < 16
            invariant
                i <= 16,
                buf@.len() == 16,
                forall|j: int| 0 <= j < i ==> array@[j] == buf@[j],
            decreases 16 - i,
        {
            array[i] = buf[i];
            i = i + 1;
        }
        assert(array@ =~= buf@);
        Ok(u128_from_ne_bytes(array))
    }
}

/// `usize::to_ne_bytes`: the 8 bytes of `x` in the machine's byte order,
/// the hardware's `endianness()` (vstd).
#[verifier::external_body]
fn usize_to_ne_bytes(x: usize) -> (b: [u8; 8])
    ensures
        is_ne_bytes(b@, x as int, 8),
{
    x.to_ne_bytes()
}

/// `usize::from_ne_bytes`: the number whose bytes, in the machine's byte order
/// (the hardware's `endianness()`, vstd), are `b`.
#[verifier::external_body]
fn usize_from_ne_bytes(b: [u8; 8]) -> (x: usize)
    ensures
        is_ne_bytes(b@, x as int, 8),
{
    usize::from_ne_bytes(b)
}

impl KeyValue for usize {
    type Stored = [u8; 8];

    /// The bytes of the number in the machine's byte order.
    fn to_bytes(self) -> (r: io::Result<[u8; 8]>)
        ensures
            r matches Ok(b) && is_ne_bytes(b@, self as int, 8),
    {
        Ok(usize_to_ne_bytes(self))
    }
}

impl KeyValueReturn for usize {
    /// Fails unless `buf` holds exactly the 8 bytes of a `usize`.
    fn from_bytes(buf: &[u8]) -> (r: io::Result<usize>)
        ensures
            r is Ok <==> buf@.len() == 8,
            r matches Ok(x) ==> is_ne_bytes(buf@, x as int, 8),
    {
        if buf.len() != 8 {
            return Err(length_mismatch_error(8));
        }
        let mut array: [u8; 8] = [0u8; 8];
        let mut i: usize = 0;
        while i < 8
            invariant
                i <= 8,
                buf@.len() == 8,
                forall|j: int| 0 <= j < i ==> array@[j] == buf@[j],
            decreases 8 - i,
        {
            array[i] = buf[i];
            i = i + 1;
        }
        assert(array@ =~= buf@);
        Ok(usize_from_ne_bytes(array))
    }
}

} // verus!
