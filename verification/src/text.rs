//! Byte-level text helpers: blanks, prefixes and signed decimal numbers.

use vstd::prelude::*;
use vstd::slice::slice_subrange;

verus! {

/// The blanks that may surround a number: space, and tab through carriage return.
pub open spec fn is_blank(b: u8) -> bool {
    b == 0x20 || (0x09 <= b && b <= 0x0d)
}

/// An ASCII decimal digit.
pub open spec fn is_digit(b: u8) -> bool {
    0x30 <= b && b <= 0x39
}

/// `s` without its leading blanks.
pub open spec fn trim_start(s: Seq<u8>) -> Seq<u8>
    decreases s.len(),
{
    if s.len() > 0 && is_blank(s[0]) {
        trim_start(s.skip(1))
    } else {
        s
    }
}

/// `s` without its trailing blanks.
pub open spec fn trim_end(s: Seq<u8>) -> Seq<u8>
    decreases s.len(),
{
    if s.len() > 0 && is_blank(s.last()) {
        trim_end(s.drop_last())
    } else {
        s
    }
}

/// `s` without the blanks at either end.
pub open spec fn trim(s: Seq<u8>) -> Seq<u8> {
    trim_end(trim_start(s))
}

/// Whether `s` begins with `p`.
pub open spec fn has_prefix(s: Seq<u8>, p: Seq<u8>) -> bool {
    p.len() <= s.len() && s.subrange(0, p.len() as int) == p
}

/// Whether every byte of `s` is a decimal digit.
pub open spec fn all_digits(s: Seq<u8>) -> bool {
    forall|i: int| 0 <= i < s.len() ==> is_digit(#[trigger] s[i])
}

/// The number that a run of decimal digits writes.
pub open spec fn digits_value(s: Seq<u8>) -> nat
    decreases s.len(),
{
    if s.len() == 0 {
        0
    } else {
        digits_value(s.drop_last()) * 10 + (s.last() - 0x30) as nat
    }
}

/// Whether `s` opens with a sign.
pub open spec fn has_sign(s: Seq<u8>) -> bool {
    s.len() > 0 && (s[0] == 0x2b || s[0] == 0x2d)
}

/// The integer that `s` writes as a signed decimal: an optional `+` or `-`
/// and then at least one digit, with nothing before, between or after.
pub open spec fn signed_decimal(s: Seq<u8>) -> Option<int> {
    let body = if has_sign(s) {
        s.skip(1)
    } else {
        s
    };
    if body.len() > 0 && all_digits(body) {
        if has_sign(s) && s[0] == 0x2d {
            Some(-(digits_value(body) as int))
        } else {
            Some(digits_value(body) as int)
        }
    } else {
        None
    }
}

/// The `i32` that `s` writes, if it writes one that fits.
pub open spec fn parse_i32(s: Seq<u8>) -> Option<i32> {
    match signed_decimal(s) {
        Some(v) => if i32::MIN <= v && v <= i32::MAX {
            Some(v as i32)
        } else {
            None
        },
        None => None,
    }
}

/// The `u32` that `s` writes, if it writes one that fits. A `-` is no part of
/// an unsigned number; a `+` is accepted.
pub open spec fn parse_u32(s: Seq<u8>) -> Option<u32> {
    match signed_decimal(s) {
        Some(v) => if !(has_sign(s) && s[0] == 0x2d) && v <= u32::MAX {
            Some(v as u32)
        } else {
            None
        },
        None => None,
    }
}

/// A longer run of digits writes no smaller a number than any of its prefixes.
pub proof fn lemma_digits_value_prefix(s: Seq<u8>, k: int)
    requires
        0 <= k <= s.len(),
    ensures
        digits_value(s.take(k)) <= digits_value(s),
    decreases s.len() - k,
{
    if k == s.len() {
        assert(s.take(k) =~= s);
    } else {
        lemma_digits_value_prefix(s, k + 1);
        assert(s.take(k + 1).drop_last() =~= s.take(k));
    }
}

/// Trimming at the front leaves the input from its first byte that is no
/// blank.
pub proof fn lemma_trim_start_window(s: Seq<u8>, lo: int)
    requires
        0 <= lo <= s.len(),
        forall|i: int| 0 <= i < lo ==> is_blank(#[trigger] s[i]),
        lo == s.len() || !is_blank(s[lo]),
    ensures
        trim_start(s) == s.skip(lo),
    decreases lo,
{
    if lo == 0 {
        assert(s.skip(0) =~= s);
    } else {
        let t = s.skip(1);
        assert forall|i: int| 0 <= i < lo - 1 implies is_blank(#[trigger] t[i]) by {
            assert(t[i] == s[i + 1]);
        }
        lemma_trim_start_window(t, lo - 1);
        assert(t.skip(lo - 1) =~= s.skip(lo));
    }
}

/// Trimming at the back leaves the input up to its last byte that is no
/// blank.
pub proof fn lemma_trim_end_window(s: Seq<u8>, hi: int)
    requires
        0 <= hi <= s.len(),
        forall|i: int| hi <= i < s.len() ==> is_blank(#[trigger] s[i]),
        hi == 0 || !is_blank(s[hi - 1]),
    ensures
        trim_end(s) == s.take(hi),
    decreases s.len() - hi,
{
    if hi == s.len() {
        assert(s.take(hi) =~= s);
    } else {
        let t = s.drop_last();
        lemma_trim_end_window(t, hi);
        assert(t.take(hi) =~= s.take(hi));
    }
}

/// Whether `b` is a blank.
pub fn blank(b: u8) -> (r: bool)
    ensures
        r == is_blank(b),
{
    b == 0x20 || (0x09 <= b && b <= 0x0d)
}

/// The part of `s` between its leading and its trailing blanks.
pub fn trimmed(s: &[u8]) -> (r: &[u8])
    ensures
        r@ == trim(s@),
{
    let n: usize = s.len();
    let mut lo: usize = 0;
    while lo < n && blank(s[lo])
        invariant
            n == s@.len(),
            lo <= n,
            forall|i: int| 0 <= i < lo ==> is_blank(#[trigger] s@[i]),
        decreases n - lo,
    {
        lo = lo + 1;
    }
    let mut hi: usize = n;
    while hi > lo && blank(s[hi - 1])
        invariant
            n == s@.len(),
            lo <= hi <= n,
            forall|i: int| hi <= i < n ==> is_blank(#[trigger] s@[i]),
        decreases hi,
    {
        hi = hi - 1;
    }
    proof {
        lemma_trim_start_window(s@, lo as int);
        let t = s@.skip(lo as int);
        assert forall|i: int| hi - lo <= i < t.len() implies is_blank(#[trigger] t[i]) by {
            assert(t[i] == s@[i + lo]);
        }
        if hi > lo {
            assert(t[hi - lo - 1] == s@[hi - 1]);
        }
        lemma_trim_end_window(t, hi - lo);
        assert(t.take(hi - lo) =~= s@.subrange(lo as int, hi as int));
    }
    slice_subrange(s, lo, hi)
}

/// Whether `s` begins with `p`.
pub fn starts_with(s: &[u8], p: &[u8]) -> (r: bool)
    ensures
        r == has_prefix(s@, p@),
{
    if p.len() > s.len() {
        return false;
    }
    let n: usize = p.len();
    let mut i: usize = 0;
    while i < n
        invariant
            n == p@.len(),
            n <= s@.len(),
            i <= n,
            forall|k: int| 0 <= k < i ==> s@[k] == p@[k],
        decreases n - i,
    {
        if s[i] != p[i] {
            proof {
                assert(s@.subrange(0, n as int)[i as int] == s@[i as int]);
            }
            return false;
        }
        i = i + 1;
    }
    proof {
        assert(s@.subrange(0, n as int) =~= p@);
    }
    true
}

/// The number that the bytes of `s` from `from` on write as a run of digits;
/// `None` where one of them is no digit, where there is none at all, or where
/// the number is above `limit`.
fn magnitude(s: &[u8], from: usize, limit: u64) -> (r: Option<u64>)
    requires
        from <= s@.len(),
        limit <= 0xffff_ffff,
    ensures
        r == (if s@.len() > from && all_digits(s@.skip(from as int)) && digits_value(
            s@.skip(from as int),
        ) <= limit {
            Some(digits_value(s@.skip(from as int)) as u64)
        } else {
            None
        }),
{
    let n: usize = s.len();
    let ghost body = s@.skip(from as int);
    if from >= n {
        return None;
    }
    let mut acc: u64 = 0;
    let mut i: usize = from;
    while i < n
        invariant
            n == s@.len(),
            from <= i <= n,
            body == s@.skip(from as int),
            limit <= 0xffff_ffff,
            acc <= limit,
            acc == digits_value(body.take(i - from)),
            forall|k: int| 0 <= k < i - from ==> is_digit(#[trigger] body[k]),
        decreases n - i,
    {
        let b: u8 = s[i];
        proof {
            assert(body[i - from] == b);
            assert(body.take(i - from + 1).drop_last() =~= body.take(i - from));
            assert(body.take(i - from + 1).last() == b);
        }
        if !(0x30 <= b && b <= 0x39) {
            return None;
        }
        let d: u64 = (b - 0x30) as u64;
        acc = acc * 10 + d;
        if acc > limit {
            proof {
                lemma_digits_value_prefix(body, i - from + 1);
            }
            return None;
        }
        i = i + 1;
    }
    proof {
        assert(body.take(n - from) =~= body);
    }
    Some(acc)
}

/// Reads `s` as a signed decimal `i32`.
pub fn read_i32(s: &[u8]) -> (r: Option<i32>)
    ensures
        r == parse_i32(s@),
{
    let n: usize = s.len();
    if n == 0 {
        return None;
    }
    let first: u8 = s[0];
    if first == 0x2d {
        match magnitude(s, 1, 0x8000_0000) {
            Some(m) => {
                let v: i64 = -(m as i64);
                Some(v as i32)
            },
            None => None,
        }
    } else if first == 0x2b {
        match magnitude(s, 1, 0x7fff_ffff) {
            Some(m) => Some(m as i32),
            None => None,
        }
    } else {
        proof {
            assert(s@.skip(0) =~= s@);
        }
        match magnitude(s, 0, 0x7fff_ffff) {
            Some(m) => Some(m as i32),
            None => None,
        }
    }
}

/// Reads `s` as a decimal `u32`.
pub fn read_u32(s: &[u8]) -> (r: Option<u32>)
    ensures
        r == parse_u32(s@),
{
    let n: usize = s.len();
    if n == 0 {
        return None;
    }
    let first: u8 = s[0];
    if first == 0x2d {
        None
    } else if first == 0x2b {
        match magnitude(s, 1, 0xffff_ffff) {
            Some(m) => Some(m as u32),
            None => None,
        }
    } else {
        proof {
            assert(s@.skip(0) =~= s@);
        }
        match magnitude(s, 0, 0xffff_ffff) {
            Some(m) => Some(m as u32),
            None => None,
        }
    }
}

/// The index of the first byte of `s` that is `a` or `b`; the length of `s`
/// where there is none.
pub open spec fn first_of(s: Seq<u8>, a: u8, b: u8) -> nat
    decreases s.len(),
{
    if s.len() == 0 {
        0
    } else if s[0] == a || s[0] == b {
        0
    } else {
        1 + first_of(s.skip(1), a, b)
    }
}

/// `first_of` is the one index before which nothing matches and at which
/// something does, or the input ends.
pub proof fn lemma_first_of(s: Seq<u8>, a: u8, b: u8, k: int)
    requires
        0 <= k <= s.len(),
        forall|i: int| 0 <= i < k ==> #[trigger] s[i] != a && s[i] != b,
        k == s.len() || s[k] == a || s[k] == b,
    ensures
        first_of(s, a, b) == k,
    decreases k,
{
    if k > 0 {
        let t = s.skip(1);
        assert forall|i: int| 0 <= i < k - 1 implies #[trigger] t[i] != a && t[i] != b by {
            assert(t[i] == s[i + 1]);
        }
        lemma_first_of(t, a, b, k - 1);
    }
}

/// What `first_of` returns lies within the input, nothing before it matches,
/// and the byte there does.
pub proof fn lemma_first_of_bounds(s: Seq<u8>, a: u8, b: u8)
    ensures
        0 <= first_of(s, a, b) <= s.len(),
        forall|i: int| 0 <= i < first_of(s, a, b) ==> #[trigger] s[i] != a && s[i] != b,
        first_of(s, a, b) < s.len() ==> s[first_of(s, a, b) as int] == a || s[first_of(
            s,
            a,
            b,
        ) as int] == b,
    decreases s.len(),
{
    if s.len() > 0 && !(s[0] == a || s[0] == b) {
        let t = s.skip(1);
        lemma_first_of_bounds(t, a, b);
        assert forall|i: int| 0 <= i < first_of(s, a, b) implies #[trigger] s[i] != a && s[i]
            != b by {
            if i > 0 {
                assert(t[i - 1] == s[i]);
            }
        }
    }
}

/// The index of the first byte of `s`, from `from` on, that is `a` or `b`;
/// the length of `s` where there is none, or where `from` lies beyond it.
pub fn scan_to(s: &[u8], from: usize, a: u8, b: u8) -> (j: usize)
    ensures
        from <= s@.len() ==> j == from + first_of(s@.skip(from as int), a, b),
        from <= s@.len() ==> from <= j,
        from > s@.len() ==> j == s@.len(),
        j <= s@.len(),
{
    let n: usize = s.len();
    if from > n {
        return n;
    }
    let mut j: usize = from;
    while j < n && s[j] != a && s[j] != b
        invariant
            n == s@.len(),
            from <= j <= n,
            forall|i: int| from <= i < j ==> #[trigger] s@[i] != a && s@[i] != b,
        decreases n - j,
    {
        j = j + 1;
    }
    proof {
        let t = s@.skip(from as int);
        assert forall|i: int| 0 <= i < j - from implies #[trigger] t[i] != a && t[i] != b by {
            assert(t[i] == s@[i + from]);
        }
        lemma_first_of(t, a, b, j - from);
    }
    j
}

/// The text that lossy UTF-8 decoding makes of a byte string: each maximal
/// ill-formed part becomes U+FFFD, everything else decodes as it stands.
pub uninterp spec fn lossy_text(bytes: Seq<u8>) -> Seq<char>;

/// Decodes `bytes` with `String::from_utf8_lossy`. Trusted: the text is a
/// function of the bytes alone.
#[verifier::external_body]
pub(crate) fn lossy_string(bytes: &[u8]) -> (s: String)
    ensures
        s@ == lossy_text(bytes@),
{
    String::from_utf8_lossy(bytes).into_owned()
}

} // verus!
