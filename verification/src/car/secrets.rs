//! Build-time credentials: a secrets file of simple `KEY = "value"` lines.
//!
//! Each line is trimmed; lines starting with `#` are comments; a line
//! names `KEY` when the text before its first `=` trims to `KEY`, and then
//! its value is the text after that `=`, trimmed, with every leading and
//! trailing `"` removed. The first line naming a key wins. A missing key
//! falls back to a default, so a build without secrets still works.
use vstd::prelude::*;
use crate::drive::text::{
    bytes_equal, find_byte, index_from, lemma_index_from_in_range, trim, trim_range,
};

verus! {

/// `s` without its leading `"` bytes.
pub open spec fn strip_leading_quotes(s: Seq<u8>) -> Seq<u8>
    decreases s.len(),
{
    if s.len() > 0 && s[0] == 0x22 {
        strip_leading_quotes(s.skip(1))
    } else {
        s
    }
}

/// `s` without its trailing `"` bytes.
pub open spec fn strip_trailing_quotes(s: Seq<u8>) -> Seq<u8>
    decreases s.len(),
{
    if s.len() > 0 && s.last() == 0x22 {
        strip_trailing_quotes(s.drop_last())
    } else {
        s
    }
}

/// What `str::trim_matches('"')` keeps.
pub open spec fn trim_quotes(s: Seq<u8>) -> Seq<u8> {
    strip_trailing_quotes(strip_leading_quotes(s))
}

/// The value one line gives `key`, if it names it.
pub open spec fn line_value(line: Seq<u8>, key: Seq<u8>) -> Option<Seq<u8>> {
    let t = trim(line);
    if t.len() > 0 && t[0] == 0x23 {
        None
    } else {
        let e = index_from(t, 0x3d, 0);
        if e < 0 || trim(t.take(e)) != key {
            None
        } else {
            Some(trim_quotes(trim(t.skip(e + 1))))
        }
    }
}

/// The value the first line naming `key` gives it, if any line does.
pub open spec fn lookup_spec(text: Seq<u8>, key: Seq<u8>) -> Option<Seq<u8>>
    decreases text.len(),
{
    if text.len() == 0 {
        None
    } else {
        let j = index_from(text, 0x0a, 0);
        let line = if j < 0 { text } else { text.take(j) };
        match line_value(line, key) {
            Some(v) => Some(v),
            None => if j < 0 {
                None
            } else {
                proof {
                    lemma_index_from_in_range(text, 0x0a, 0);
                }
                lookup_spec(text.skip(j + 1), key)
            },
        }
    }
}

/// The bounds of `trim_quotes(s[lo..hi])` inside `s`.
fn trim_quotes_range(s: &[u8], lo: usize, hi: usize) -> (r: (usize, usize))
    requires
        lo <= hi <= s@.len(),
    ensures
        lo <= r.0 <= r.1 <= hi,
        s@.subrange(r.0 as int, r.1 as int) == trim_quotes(s@.subrange(lo as int, hi as int)),
{
    let mut a = lo;
    while a < hi && s[a] == 0x22
        invariant
            lo <= a <= hi <= s@.len(),
            strip_leading_quotes(s@.subrange(lo as int, hi as int)) == strip_leading_quotes(
                s@.subrange(a as int, hi as int),
            ),
        decreases hi - a,
    {
        assert(s@.subrange(a as int, hi as int).skip(1) =~= s@.subrange(a + 1, hi as int));
        a = a + 1;
    }
    assert(strip_leading_quotes(s@.subrange(a as int, hi as int)) == s@.subrange(a as int, hi as int));
    let mut b = hi;
    while b > a && s[b - 1] == 0x22
        invariant
            a <= b <= hi <= s@.len(),
            strip_trailing_quotes(s@.subrange(a as int, hi as int)) == strip_trailing_quotes(
                s@.subrange(a as int, b as int),
            ),
        decreases b - a,
    {
        assert(s@.subrange(a as int, b as int).drop_last() =~= s@.subrange(a as int, b - 1));
        b = b - 1;
    }
    assert(strip_trailing_quotes(s@.subrange(a as int, b as int)) == s@.subrange(a as int, b as int));
    (a, b)
}

/// The bounds of the value `text[lo..hi]`, one line, gives `key`.
fn line_value_range(text: &[u8], lo: usize, hi: usize, key: &[u8]) -> (r: Option<(usize, usize)>)
    requires
        lo <= hi <= text@.len(),
    ensures
        match r {
            Some((a, b)) => a <= b <= text@.len() && line_value(
                text@.subrange(lo as int, hi as int),
                key@,
            ) == Some(text@.subrange(a as int, b as int)),
            None => line_value(text@.subrange(lo as int, hi as int), key@) is None,
        },
{
    let ghost line = text@.subrange(lo as int, hi as int);
    let (a, b) = trim_range(text, lo, hi);
    let ghost t = text@.subrange(a as int, b as int);
    if a < b && text[a] == 0x23 {
        return None;
    }
    let e = match find_byte(text, a, b, 0x3d) {
        Some(e) => e,
        None => {
            return None;
        },
    };
    proof {
        lemma_index_from_in_range(t, 0x3d, 0);
    }
    let (ka, kb) = trim_range(text, a, a + e);
    assert(t.take(e as int) =~= text@.subrange(a as int, a + e));
    if !bytes_equal(text, ka, kb, key) {
        return None;
    }
    let (va, vb) = trim_range(text, a + e + 1, b);
    assert(t.skip(e + 1) =~= text@.subrange(a + e + 1, b as int));
    let (qa, qb) = trim_quotes_range(text, va, vb);
    Some((qa, qb))
}

/// The value the secrets `text` gives `key`: the first line naming it,
/// trimmed and unquoted; `None` when no line names it.
pub fn lookup<'a>(text: &'a [u8], key: &[u8]) -> (r: Option<&'a [u8]>)
    ensures
        match r {
            Some(v) => lookup_spec(text@, key@) == Some(v@),
            None => lookup_spec(text@, key@) is None,
        },
{
    let n = text.len();
    let mut start: usize = 0;
    assert(text@.skip(0) =~= text@);
    while start < n
        invariant
            start <= n == text@.len(),
            lookup_spec(text@, key@) == lookup_spec(text@.skip(start as int), key@),
        decreases n - start,
    {
        let ghost rest = text@.skip(start as int);
        assert(rest =~= text@.subrange(start as int, n as int));
        let found = find_byte(text, start, n, 0x0a);
        proof {
            lemma_index_from_in_range(rest, 0x0a, 0);
        }
        let end = match found {
            Some(k) => start + k,
            None => n,
        };
        assert(found is Some ==> rest.take((end - start) as int) =~= text@.subrange(
            start as int,
            end as int,
        ));
        match line_value_range(text, start, end, key) {
            Some((a, b)) => {
                let v = vstd::slice::slice_subrange(text, a, b);
                return Some(v);
            },
            None => {},
        }
        match found {
            Some(k) => {
                assert(rest.skip(k + 1) =~= text@.skip(start + k + 1));
                start = start + k + 1;
            },
            None => {
                return None;
            },
        }
    }
    None
}

/// The value `text` gives `key`, or `default` when no line names it.
pub fn value_or<'a>(text: &'a [u8], key: &[u8], default: &'a [u8]) -> (v: &'a [u8])
    ensures
        v@ == match lookup_spec(text@, key@) {
            Some(found) => found,
            None => default@,
        },
{
    match lookup(text, key) {
        Some(v) => v,
        None => default,
    }
}

} // verus!
