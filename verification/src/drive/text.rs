//! Byte-level text helpers for the drive frame grammar: Unicode whitespace
//! trimming on UTF-8 bytes, decimal `i16` parsing, decimal formatting.
use vstd::prelude::*;
use vstd::utf8::*;
use vstd::arithmetic::div_mod::lemma_fundamental_div_mod;

verus! {

/// ASCII whitespace: tab, line feed, vertical tab, form feed, carriage return, space.
pub open spec fn is_ascii_ws(b: u8) -> bool {
    b == 0x20 || (0x09 <= b && b <= 0x0d)
}

/// The two-byte UTF-8 encodings of Unicode whitespace (U+0085, U+00A0).
pub open spec fn is_ws2(a: u8, b: u8) -> bool {
    a == 0xc2 && (b == 0x85 || b == 0xa0)
}

/// The three-byte UTF-8 encodings of Unicode whitespace (U+1680,
/// U+2000..=U+200A, U+2028, U+2029, U+202F, U+205F, U+3000).
pub open spec fn is_ws3(a: u8, b: u8, c: u8) -> bool {
    ||| (a == 0xe1 && b == 0x9a && c == 0x80)
    ||| (a == 0xe2 && b == 0x80 && ((0x80 <= c && c <= 0x8a) || c == 0xa8 || c == 0xa9 || c == 0xaf))
    ||| (a == 0xe2 && b == 0x81 && c == 0x9f)
    ||| (a == 0xe3 && b == 0x80 && c == 0x80)
}

/// Byte length of the whitespace character that `s` starts with, 0 if none.
pub open spec fn leading_ws_len(s: Seq<u8>) -> int {
    if s.len() >= 1 && is_ascii_ws(s[0]) {
        1
    } else if s.len() >= 2 && is_ws2(s[0], s[1]) {
        2
    } else if s.len() >= 3 && is_ws3(s[0], s[1], s[2]) {
        3
    } else {
        0
    }
}

/// Byte length of the whitespace character that `s` ends with, 0 if none.
pub open spec fn trailing_ws_len(s: Seq<u8>) -> int {
    let n = s.len() as int;
    if n >= 1 && is_ascii_ws(s[n - 1]) {
        1
    } else if n >= 2 && is_ws2(s[n - 2], s[n - 1]) {
        2
    } else if n >= 3 && is_ws3(s[n - 3], s[n - 2], s[n - 1]) {
        3
    } else {
        0
    }
}

/// `s` without its leading whitespace characters.
pub open spec fn trim_start(s: Seq<u8>) -> Seq<u8>
    decreases s.len(),
{
    if leading_ws_len(s) > 0 {
        trim_start(s.skip(leading_ws_len(s)))
    } else {
        s
    }
}

/// `s` without its trailing whitespace characters.
pub open spec fn trim_end(s: Seq<u8>) -> Seq<u8>
    decreases s.len(),
{
    if trailing_ws_len(s) > 0 {
        trim_end(s.take(s.len() - trailing_ws_len(s)))
    } else {
        s
    }
}

/// `s` without leading and trailing whitespace (what `str::trim` keeps of
/// well-formed UTF-8).
pub open spec fn trim(s: Seq<u8>) -> Seq<u8> {
    trim_end(trim_start(s))
}

/// Index of the first `b` in `s` at or after `i`, or -1.
pub open spec fn index_from(s: Seq<u8>, b: u8, i: int) -> int
    decreases s.len() - i,
{
    if i < 0 || i >= s.len() {
        -1
    } else if s[i] == b {
        i
    } else {
        index_from(s, b, i + 1)
    }
}

/// The first `b` at or after `i` is at `k` when `s[k] == b` and no byte in
/// between is `b`.
pub proof fn lemma_index_from_first(s: Seq<u8>, b: u8, i: int, k: int)
    requires
        0 <= i <= k < s.len(),
        s[k] == b,
        forall|j: int| i <= j < k ==> #[trigger] s[j] != b,
    ensures
        index_from(s, b, i) == k,
    decreases k - i,
{
    if i < k {
        lemma_index_from_first(s, b, i + 1, k);
    }
}

/// The first `b` at or after `i`, when there is one, is inside `s`.
pub proof fn lemma_index_from_in_range(s: Seq<u8>, b: u8, i: int)
    requires
        0 <= i,
    ensures
        index_from(s, b, i) == -1 || (i <= index_from(s, b, i) < s.len() && s[index_from(s, b, i)]
            == b),
    decreases s.len() - i,
{
    if 0 <= i < s.len() && s[i] != b {
        lemma_index_from_in_range(s, b, i + 1);
    }
}

/// No `b` at or after `i` means the search comes back empty.
pub proof fn lemma_index_from_absent(s: Seq<u8>, b: u8, i: int)
    requires
        0 <= i,
        forall|j: int| i <= j < s.len() ==> #[trigger] s[j] != b,
    ensures
        index_from(s, b, i) == -1,
    decreases s.len() - i,
{
    if i < s.len() {
        lemma_index_from_absent(s, b, i + 1);
    }
}

/// `true` when every byte of `s` is an ASCII decimal digit.
pub open spec fn all_digits(s: Seq<u8>) -> bool {
    forall|i: int| 0 <= i < s.len() ==> 0x30 <= #[trigger] s[i] <= 0x39
}

/// The value of a string of decimal digits.
pub open spec fn digits_value(s: Seq<u8>) -> int
    decreases s.len(),
{
    if s.len() == 0 {
        0
    } else {
        digits_value(s.drop_last()) * 10 + (s.last() - 0x30)
    }
}

/// What `str::parse::<i16>` accepts: an optional `+` or `-`, then one or
/// more ASCII digits, with a value inside `i16`.
pub open spec fn parse_i16_spec(s: Seq<u8>) -> Option<int> {
    if s.len() == 0 {
        None
    } else {
        let neg = s[0] == 0x2d;
        let digits = if s[0] == 0x2d || s[0] == 0x2b { s.skip(1) } else { s };
        if digits.len() == 0 || !all_digits(digits) {
            None
        } else {
            let v = if neg { -digits_value(digits) } else { digits_value(digits) };
            if -32768 <= v && v <= 32767 { Some(v) } else { None }
        }
    }
}

/// Decimal digits of `n`, most significant first, no leading zeros.
pub open spec fn decimal(n: nat) -> Seq<u8>
    decreases n,
{
    if n < 10 {
        seq![(0x30 + n) as u8]
    } else {
        decimal(n / 10).push((0x30 + n % 10) as u8)
    }
}

/// Decimal text of `v`, with a leading `-` when negative.
pub open spec fn signed_decimal(v: int) -> Seq<u8> {
    if v < 0 {
        seq![0x2du8] + decimal((-v) as nat)
    } else {
        decimal(v as nat)
    }
}

// ---------------------------------------------------------------- executable

/// Byte length of the whitespace character at the start of `s[lo..hi]`.
pub fn leading_ws_at(s: &[u8], lo: usize, hi: usize) -> (n: usize)
    requires
        lo <= hi <= s@.len(),
    ensures
        n == leading_ws_len(s@.subrange(lo as int, hi as int)),
{
    let ghost t = s@.subrange(lo as int, hi as int);
    let len = hi - lo;
    if len >= 1 {
        let a = s[lo];
        if a == 0x20 || (0x09 <= a && a <= 0x0d) {
            return 1;
        }
        if len >= 2 {
            let b = s[lo + 1];
            if a == 0xc2 && (b == 0x85 || b == 0xa0) {
                return 2;
            }
            if len >= 3 {
                let c = s[lo + 2];
                if (a == 0xe1 && b == 0x9a && c == 0x80)
                    || (a == 0xe2 && b == 0x80 && ((0x80 <= c && c <= 0x8a) || c == 0xa8 || c == 0xa9
                    || c == 0xaf)) || (a == 0xe2 && b == 0x81 && c == 0x9f)
                    || (a == 0xe3 && b == 0x80 && c == 0x80) {
                    return 3;
                }
            }
        }
    }
    0
}

/// Byte length of the whitespace character at the end of `s[lo..hi]`.
pub fn trailing_ws_at(s: &[u8], lo: usize, hi: usize) -> (n: usize)
    requires
        lo <= hi <= s@.len(),
    ensures
        n == trailing_ws_len(s@.subrange(lo as int, hi as int)),
{
    let len = hi - lo;
    if len >= 1 {
        let c = s[hi - 1];
        if c == 0x20 || (0x09 <= c && c <= 0x0d) {
            return 1;
        }
        if len >= 2 {
            let b = s[hi - 2];
            if b == 0xc2 && (c == 0x85 || c == 0xa0) {
                return 2;
            }
            if len >= 3 {
                let a = s[hi - 3];
                if (a == 0xe1 && b == 0x9a && c == 0x80)
                    || (a == 0xe2 && b == 0x80 && ((0x80 <= c && c <= 0x8a) || c == 0xa8 || c == 0xa9
                    || c == 0xaf)) || (a == 0xe2 && b == 0x81 && c == 0x9f)
                    || (a == 0xe3 && b == 0x80 && c == 0x80) {
                    return 3;
                }
            }
        }
    }
    0
}

/// The bounds of `trim(s[lo..hi])` inside `s`.
pub fn trim_range(s: &[u8], lo: usize, hi: usize) -> (r: (usize, usize))
    requires
        lo <= hi <= s@.len(),
    ensures
        lo <= r.0 <= r.1 <= hi,
        s@.subrange(r.0 as int, r.1 as int) == trim(s@.subrange(lo as int, hi as int)),
{
    let mut a = lo;
    while a < hi
        invariant
            lo <= a <= hi <= s@.len(),
            trim_start(s@.subrange(lo as int, hi as int)) == trim_start(s@.subrange(a as int, hi as int)),
        ensures
            lo <= a <= hi,
            trim_start(s@.subrange(lo as int, hi as int)) == trim_start(s@.subrange(a as int, hi as int)),
            leading_ws_len(s@.subrange(a as int, hi as int)) == 0,
        decreases hi - a,
    {
        let n = leading_ws_at(s, a, hi);
        if n == 0 {
            break;
        }
        assert(s@.subrange(a as int, hi as int).skip(n as int) =~= s@.subrange((a + n) as int, hi as int));
        a = a + n;
    }
    assert(trim_start(s@.subrange(a as int, hi as int)) == s@.subrange(a as int, hi as int));
    let mut b = hi;
    while b > a
        invariant
            a <= b <= hi <= s@.len(),
            trim_end(s@.subrange(a as int, hi as int)) == trim_end(s@.subrange(a as int, b as int)),
        ensures
            a <= b <= hi,
            trim_end(s@.subrange(a as int, hi as int)) == trim_end(s@.subrange(a as int, b as int)),
            trailing_ws_len(s@.subrange(a as int, b as int)) == 0,
        decreases b - a,
    {
        let n = trailing_ws_at(s, a, b);
        if n == 0 {
            break;
        }
        assert(s@.subrange(a as int, b as int).take((b - a) - n) =~= s@.subrange(a as int, (b - n) as int));
        b = b - n;
    }
    assert(trim_end(s@.subrange(a as int, b as int)) == s@.subrange(a as int, b as int));
    (a, b)
}

/// `true` when `b[lo..hi]` equals `want`.
pub fn bytes_equal(b: &[u8], lo: usize, hi: usize, want: &[u8]) -> (r: bool)
    requires
        lo <= hi <= b@.len(),
    ensures
        r == (b@.subrange(lo as int, hi as int) == want@),
{
    if hi - lo != want.len() {
        assert(b@.subrange(lo as int, hi as int).len() != want@.len());
        return false;
    }
    let mut i: usize = 0;
    while i < want.len()
        invariant
            i <= want@.len(),
            hi - lo == want@.len(),
            lo <= hi <= b@.len(),
            forall|j: int| 0 <= j < i ==> b@[lo + j] == want@[j],
        decreases want.len() - i,
    {
        if b[lo + i] != want[i] {
            assert(b@.subrange(lo as int, hi as int)[i as int] != want@[i as int]);
            return false;
        }
        i = i + 1;
    }
    assert(b@.subrange(lo as int, hi as int) =~= want@);
    true
}

/// Index of the first `byte` in `s[lo..hi]`, relative to `lo`, or `None`.
pub fn find_byte(s: &[u8], lo: usize, hi: usize, byte: u8) -> (r: Option<usize>)
    requires
        lo <= hi <= s@.len(),
    ensures
        match r {
            Some(k) => lo + k < hi && s@[lo + k] == byte && index_from(
                s@.subrange(lo as int, hi as int),
                byte,
                0,
            ) == k,
            None => index_from(s@.subrange(lo as int, hi as int), byte, 0) == -1,
        },
{
    let ghost t = s@.subrange(lo as int, hi as int);
    let mut k = lo;
    while k < hi
        invariant
            lo <= k <= hi <= s@.len(),
            t == s@.subrange(lo as int, hi as int),
            index_from(t, byte, 0) == index_from(t, byte, k - lo),
        decreases hi - k,
    {
        if s[k] == byte {
            return Some(k - lo);
        }
        k = k + 1;
    }
    None
}

proof fn lemma_digits_value_nonneg(s: Seq<u8>)
    requires
        all_digits(s),
    ensures
        digits_value(s) >= 0,
    decreases s.len(),
{
    if s.len() > 0 {
        assert(all_digits(s.drop_last()));
        lemma_digits_value_nonneg(s.drop_last());
    }
}

/// Parse `s[lo..hi]` as `str::parse::<i16>` does.
pub fn parse_i16_at(s: &[u8], lo: usize, hi: usize) -> (r: Option<i16>)
    requires
        lo <= hi <= s@.len(),
    ensures
        match r {
            Some(v) => parse_i16_spec(s@.subrange(lo as int, hi as int)) == Some(v as int),
            None => parse_i16_spec(s@.subrange(lo as int, hi as int)) is None,
        },
{
    let ghost t = s@.subrange(lo as int, hi as int);
    if lo == hi {
        return None;
    }
    let first = s[lo];
    let neg = first == 0x2d;
    let start = if first == 0x2d || first == 0x2b { lo + 1 } else { lo };
    let ghost digits = if first == 0x2d || first == 0x2b { t.skip(1) } else { t };
    assert(digits =~= s@.subrange(start as int, hi as int));
    if start == hi {
        return None;
    }
    // `acc` saturates at 40_000: anything that large is out of range anyway.
    let mut acc: u32 = 0;
    let mut k = start;
    while k < hi
        invariant
            lo < hi,
            start <= k <= hi <= s@.len(),
            t == s@.subrange(lo as int, hi as int),
            digits == (if t[0] == 0x2d || t[0] == 0x2b { t.skip(1) } else { t }),
            neg == (t[0] == 0x2d),
            digits.len() > 0,
            digits == s@.subrange(start as int, hi as int),
            all_digits(s@.subrange(start as int, k as int)),
            acc <= 40_000,
            acc == if digits_value(s@.subrange(start as int, k as int)) > 40_000 {
                40_000
            } else {
                digits_value(s@.subrange(start as int, k as int))
            },
        decreases hi - k,
    {
        let c = s[k];
        if c < 0x30 || c > 0x39 {
            assert(digits[k - start] == c);
            return None;
        }
        let ghost prev = s@.subrange(start as int, k as int);
        let ghost next = s@.subrange(start as int, (k + 1) as int);
        assert(next.drop_last() =~= prev);
        assert(next.last() == c);
        assert(all_digits(next)) by {
            assert forall|i: int| 0 <= i < next.len() implies 0x30 <= #[trigger] next[i] <= 0x39 by {
                if i < prev.len() {
                    assert(next[i] == prev[i]);
                }
            }
        }
        proof {
            lemma_digits_value_nonneg(prev);
        }
        let v = acc * 10 + (c - 0x30) as u32;
        acc = if v > 40_000 { 40_000 } else { v };
        k = k + 1;
    }
    proof {
        lemma_digits_value_nonneg(digits);
    }
    if neg {
        if acc > 32768 {
            None
        } else {
            Some((0 - acc as i32) as i16)
        }
    } else {
        if acc > 32767 {
            None
        } else {
            Some(acc as i16)
        }
    }
}

/// Write the decimal digits of `m` at `buf[pos..]`; returns the end position.
pub fn write_decimal(buf: &mut [u8], pos: usize, m: u16) -> (end: usize)
    requires
        pos + decimal(m as nat).len() <= old(buf)@.len(),
    ensures
        end == pos + decimal(m as nat).len(),
        final(buf)@.len() == old(buf)@.len(),
        final(buf)@.subrange(pos as int, end as int) == decimal(m as nat),
        forall|i: int|
            0 <= i < final(buf)@.len() && !(pos <= i < end) ==> final(buf)@[i] == old(buf)@[i],
    decreases m,
{
    if m < 10 {
        buf[pos] = 0x30 + m as u8;
        assert(final(buf)@.subrange(pos as int, pos + 1) =~= decimal(m as nat)) by {
            assert(buf@.subrange(pos as int, pos + 1) =~= seq![(0x30 + m) as u8]);
        }
        pos + 1
    } else {
        assert(decimal(m as nat) == decimal((m / 10) as nat).push((0x30 + m % 10) as u8));
        let p = write_decimal(buf, pos, m / 10);
        let ghost mid = buf@;
        buf[p] = 0x30 + (m % 10) as u8;
        assert(buf@.subrange(pos as int, (p + 1) as int) =~= mid.subrange(pos as int, p as int).push(
            (0x30 + m % 10) as u8,
        ));
        p + 1
    }
}

// ---------------------------------------------------------------- lemmas

/// ASCII bytes are well-formed UTF-8.
pub proof fn lemma_ascii_valid_utf8(s: Seq<u8>)
    requires
        forall|i: int| 0 <= i < s.len() ==> #[trigger] s[i] < 0x80,
    ensures
        valid_utf8(s),
    decreases s.len(),
{
    if s.len() > 0 {
        let rest = s.subrange(1, s.len() as int);
        assert(valid_first_scalar(s));
        assert(pop_first_scalar(s) =~= rest);
        assert forall|i: int| 0 <= i < rest.len() implies #[trigger] rest[i] < 0x80 by {
            assert(rest[i] == s[i + 1]);
        }
        lemma_ascii_valid_utf8(rest);
    }
}

/// The decimal text of `n` is digits only, has the value `n`, and has at
/// most four digits below 10 000.
pub proof fn lemma_decimal(n: nat)
    ensures
        all_digits(decimal(n)),
        digits_value(decimal(n)) == n,
        decimal(n).len() >= 1,
        n < 10_000 ==> decimal(n).len() <= 4,
        n < 1_000 ==> decimal(n).len() <= 3,
        n < 100 ==> decimal(n).len() <= 2,
        n < 10 ==> decimal(n).len() == 1,
    decreases n,
{
    if n >= 10 {
        lemma_fundamental_div_mod(n as int, 10);
        lemma_decimal(n / 10);
        let d = decimal(n);
        let prev = decimal(n / 10);
        assert(d.drop_last() =~= prev);
        assert(all_digits(d)) by {
            assert forall|i: int| 0 <= i < d.len() implies 0x30 <= #[trigger] d[i] <= 0x39 by {
                if i < prev.len() {
                    assert(d[i] == prev[i]);
                }
            }
        }
        assert(d.last() == (0x30 + n % 10) as u8);
        assert(digits_value(d) == digits_value(prev) * 10 + n % 10);
        assert(digits_value(prev) == n / 10);
        assert(n == (n / 10) * 10 + n % 10);
    } else {
        let d = decimal(n);
        assert(d.last() == (0x30 + n) as u8);
        assert(d.drop_last() =~= Seq::<u8>::empty());
        assert(digits_value(d.drop_last()) == 0);
        assert(digits_value(d) == n);
        assert(all_digits(d));
    }
}

/// `parse_i16` reads back what `signed_decimal` wrote, inside the drive range.
pub proof fn lemma_parse_signed_decimal(v: int)
    requires
        -1000 <= v <= 1000,
    ensures
        parse_i16_spec(signed_decimal(v)) == Some(v),
        signed_decimal(v).len() >= 1,
        signed_decimal(v).len() <= 5,
        forall|i: int|
            0 <= i < signed_decimal(v).len() ==> (#[trigger] signed_decimal(v)[i] == 0x2d || 0x30
                <= signed_decimal(v)[i] <= 0x39),
        0x30 <= signed_decimal(v).last() <= 0x39,
        v >= 0 ==> 0x30 <= signed_decimal(v)[0] <= 0x39,
        v < 0 ==> signed_decimal(v)[0] == 0x2d,
{
    let s = signed_decimal(v);
    if v < 0 {
        let n = (-v) as nat;
        lemma_decimal(n);
        assert(s.skip(1) =~= decimal(n));
        assert(s[0] == 0x2d);
        assert forall|i: int| 0 <= i < s.len() implies (#[trigger] s[i] == 0x2d || 0x30 <= s[i] <= 0x39) by {
            if i > 0 {
                assert(s[i] == decimal(n)[i - 1]);
            }
        }
        assert(s.last() == decimal(n).last());
    } else {
        lemma_decimal(v as nat);
        assert(decimal(v as nat)[0] == s[0]);
    }
}

} // verus!
