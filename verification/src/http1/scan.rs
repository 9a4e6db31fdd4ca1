//! Byte-level scanning used by the request-head parser: where runs of
//! blanks end, where a delimiter first occurs, where trailing blanks start.
use vstd::prelude::*;

verus! {

pub open spec fn is_blank(b: u8) -> bool {
    b == 32u8 || b == 9u8
}

/// Index of the first byte at or after `i` that is not a space or a tab
/// (`s.len()` when there is none).
pub open spec fn blank_end(s: Seq<u8>, i: int) -> int
    decreases s.len() - i,
{
    if 0 <= i < s.len() && is_blank(s[i]) {
        blank_end(s, i + 1)
    } else {
        i
    }
}

/// Index of the first byte equal to `c` at or after `i` (`s.len()` when
/// there is none).
pub open spec fn find_byte(s: Seq<u8>, c: u8, i: int) -> int
    decreases s.len() - i,
{
    if i >= s.len() {
        s.len() as int
    } else if 0 <= i && s[i] == c {
        i
    } else {
        find_byte(s, c, i + 1)
    }
}

/// Index of the first space or tab at or after `i` (`s.len()` when there is
/// none).
pub open spec fn find_blank(s: Seq<u8>, i: int) -> int
    decreases s.len() - i,
{
    if i >= s.len() {
        s.len() as int
    } else if 0 <= i && is_blank(s[i]) {
        i
    } else {
        find_blank(s, i + 1)
    }
}

/// Index where the trailing run of spaces and tabs of `s.take(j)` begins.
pub open spec fn blank_start_rev(s: Seq<u8>, j: int) -> int
    decreases j,
{
    if 0 < j <= s.len() && is_blank(s[j - 1]) {
        blank_start_rev(s, j - 1)
    } else {
        j
    }
}

/// `s` without its trailing spaces and tabs; left as it is when it holds
/// nothing but spaces and tabs.
pub open spec fn trim_blank_suffix(s: Seq<u8>) -> Seq<u8> {
    let k = blank_start_rev(s, s.len() as int);
    if k == 0 {
        s
    } else {
        s.take(k)
    }
}

pub proof fn lemma_blank_end(s: Seq<u8>, i: int)
    requires
        0 <= i <= s.len(),
    ensures
        i <= blank_end(s, i) <= s.len(),
        forall|j: int| i <= j < blank_end(s, i) ==> is_blank(#[trigger] s[j]),
        blank_end(s, i) < s.len() ==> !is_blank(s[blank_end(s, i)]),
    decreases s.len() - i,
{
    if i < s.len() && is_blank(s[i]) {
        lemma_blank_end(s, i + 1);
    }
}

pub proof fn lemma_find_byte(s: Seq<u8>, c: u8, i: int)
    requires
        0 <= i <= s.len(),
    ensures
        i <= find_byte(s, c, i) <= s.len(),
        forall|j: int| i <= j < find_byte(s, c, i) ==> #[trigger] s[j] != c,
        find_byte(s, c, i) < s.len() ==> s[find_byte(s, c, i)] == c,
    decreases s.len() - i,
{
    if i < s.len() && s[i] != c {
        lemma_find_byte(s, c, i + 1);
    }
}

pub proof fn lemma_find_blank(s: Seq<u8>, i: int)
    requires
        0 <= i <= s.len(),
    ensures
        i <= find_blank(s, i) <= s.len(),
        forall|j: int| i <= j < find_blank(s, i) ==> !is_blank(#[trigger] s[j]),
        find_blank(s, i) < s.len() ==> is_blank(s[find_blank(s, i)]),
    decreases s.len() - i,
{
    if i < s.len() && !is_blank(s[i]) {
        lemma_find_blank(s, i + 1);
    }
}

pub proof fn lemma_blank_start_rev(s: Seq<u8>, j: int)
    requires
        0 <= j <= s.len(),
    ensures
        0 <= blank_start_rev(s, j) <= j,
        forall|k: int| blank_start_rev(s, j) <= k < j ==> is_blank(#[trigger] s[k]),
        blank_start_rev(s, j) > 0 ==> !is_blank(s[blank_start_rev(s, j) - 1]),
    decreases j,
{
    if 0 < j && is_blank(s[j - 1]) {
        lemma_blank_start_rev(s, j - 1);
    }
}

/// `find_byte` from the start is the first index that holds `c`, or the
/// length when none does.
pub proof fn lemma_find_byte_is(s: Seq<u8>, c: u8, k: int)
    requires
        0 <= k <= s.len(),
        forall|j: int| 0 <= j < k ==> #[trigger] s[j] != c,
        k == s.len() || s[k] == c,
    ensures
        find_byte(s, c, 0) == k,
{
    lemma_find_byte(s, c, 0);
    let f = find_byte(s, c, 0);
    if f < k {
        assert(s[f] != c);
    } else if f > k {
        assert(s[k] != c);
    }
}

/// `find_blank` from the start is the first index that holds a blank, or
/// the length when none does.
pub proof fn lemma_find_blank_is(s: Seq<u8>, k: int)
    requires
        0 <= k <= s.len(),
        forall|j: int| 0 <= j < k ==> !is_blank(#[trigger] s[j]),
        k == s.len() || is_blank(s[k]),
    ensures
        find_blank(s, 0) == k,
{
    lemma_find_blank(s, 0);
    let f = find_blank(s, 0);
    if f < k {
        assert(!is_blank(s[f]));
    } else if f > k {
        assert(!is_blank(s[k]));
    }
}

/// `blank_end` from the start is the first index that holds no blank, or
/// the length when all are blanks.
pub proof fn lemma_blank_end_is(s: Seq<u8>, k: int)
    requires
        0 <= k <= s.len(),
        forall|j: int| 0 <= j < k ==> is_blank(#[trigger] s[j]),
        k == s.len() || !is_blank(s[k]),
    ensures
        blank_end(s, 0) == k,
{
    lemma_blank_end(s, 0);
    let f = blank_end(s, 0);
    if f < k {
        assert(is_blank(s[f]));
    } else if f > k {
        assert(is_blank(s[k]));
    }
}

/// Index of the first byte of `buf` equal to `c` (`buf.len()` when absent).
pub fn find_first(buf: &[u8], c: u8) -> (n: usize)
    ensures
        n == find_byte(buf@, c, 0),
{
    let mut i: usize = 0;
    while i < buf.len()
        invariant
            i <= buf@.len(),
            find_byte(buf@, c, 0) == find_byte(buf@, c, i as int),
        decreases buf@.len() - i,
    {
        if buf[i] == c {
            return i;
        }
        i += 1;
    }
    i
}

/// Index of the first space or tab of `buf` (`buf.len()` when absent).
pub fn find_first_blank(buf: &[u8]) -> (n: usize)
    ensures
        n == find_blank(buf@, 0),
{
    let mut i: usize = 0;
    while i < buf.len()
        invariant
            i <= buf@.len(),
            find_blank(buf@, 0) == find_blank(buf@, i as int),
        decreases buf@.len() - i,
    {
        if buf[i] == 32u8 || buf[i] == 9u8 {
            return i;
        }
        i += 1;
    }
    i
}

/// Index where the trailing spaces and tabs of `buf` begin.
pub fn trailing_blank_start(buf: &[u8]) -> (n: usize)
    ensures
        n == blank_start_rev(buf@, buf@.len() as int),
{
    let mut j: usize = buf.len();
    while j > 0
        invariant
            j <= buf@.len(),
            blank_start_rev(buf@, buf@.len() as int) == blank_start_rev(buf@, j as int),
        decreases j,
    {
        if buf[j - 1] != 32u8 && buf[j - 1] != 9u8 {
            return j;
        }
        j -= 1;
    }
    j
}

} // verus!
