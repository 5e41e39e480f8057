//! Plain-text rendering of numbers: decimal digits, percentages with one
//! fractional digit, and the compact human-readable token counts.

use vstd::prelude::*;

verus! {

/// The decimal digit character for `d` (meaningful for `0 <= d <= 9`).
pub open spec fn dec_digit(d: int) -> char {
    if d == 0 {
        '0'
    } else if d == 1 {
        '1'
    } else if d == 2 {
        '2'
    } else if d == 3 {
        '3'
    } else if d == 4 {
        '4'
    } else if d == 5 {
        '5'
    } else if d == 6 {
        '6'
    } else if d == 7 {
        '7'
    } else if d == 8 {
        '8'
    } else {
        '9'
    }
}

/// The decimal representation of a non-negative integer, most significant
/// digit first, with no leading zeros (`0` itself is `"0"`).
pub open spec fn dec_str(n: int) -> Seq<char>
    decreases n,
{
    if n < 10 {
        seq![dec_digit(n)]
    } else {
        dec_str(n / 10).push(dec_digit(n % 10))
    }
}

/// Relies on `u64`'s `Display` implementation: the standard library documents
/// that unsigned integers format as their decimal digits, most significant
/// first, with no leading zeros.
#[verifier::external_body]
pub(crate) fn fmt_u64(n: u64) -> (s: String)
    ensures
        s@ == dec_str(n as int),
{
    format!("{n}")
}

/// A value of tenths of a percent rendered with exactly one fractional digit,
/// e.g. `666` becomes `"66.6"`.
pub open spec fn spec_percent_tenths(t: int) -> Seq<char> {
    dec_str(t / 10) + "."@ + dec_str(t % 10)
}

pub fn format_percent_tenths(t: u64) -> (s: String)
    ensures
        s@ == spec_percent_tenths(t as int),
{
    let mut s = fmt_u64(t / 10);
    s.append(".");
    let frac = fmt_u64(t % 10);
    s.append(frac.as_str());
    proof {
        assert(s@ =~= spec_percent_tenths(t as int));
    }
    s
}

/// `n` scaled down by `unit`, shown with one fractional digit
/// (`1500` at unit `1000` is `"1.5"`).
pub open spec fn spec_scaled(n: int, unit: int) -> Seq<char> {
    dec_str(n / unit) + "."@ + dec_str(n % unit * 10 / unit)
}

/// The compact form of a non-negative token count: plain digits below one
/// thousand, then one fractional digit with a `K`, `M` or `B` suffix.
pub open spec fn spec_compact_u64(n: int) -> Seq<char> {
    if n < 1000 {
        dec_str(n)
    } else if n < 1000000 {
        spec_scaled(n, 1000) + "K"@
    } else if n < 1000000000 {
        spec_scaled(n, 1000000) + "M"@
    } else {
        spec_scaled(n, 1000000000) + "B"@
    }
}

/// The compact form of a signed token count: a leading minus sign, then the
/// compact form of the magnitude.
pub open spec fn spec_compact_i64(n: int) -> Seq<char> {
    if n < 0 {
        "-"@ + spec_compact_u64(-n)
    } else {
        spec_compact_u64(n)
    }
}

fn compact_u64(n: u64) -> (s: String)
    ensures
        s@ == spec_compact_u64(n as int),
{
    if n < 1000 {
        fmt_u64(n)
    } else {
        let unit: u64 = if n < 1000000 {
            1000
        } else if n < 1000000000 {
            1000000
        } else {
            1000000000
        };
        let mut s = fmt_u64(n / unit);
        s.append(".");
        let frac = fmt_u64(n % unit * 10 / unit);
        s.append(frac.as_str());
        if unit == 1000 {
            s.append("K");
        } else if unit == 1000000 {
            s.append("M");
        } else {
            s.append("B");
        }
        proof {
            assert(s@ =~= spec_compact_u64(n as int));
        }
        s
    }
}

/// Render a token count compactly: `999` stays `"999"`, `1500` becomes
/// `"1.5K"`, `2500000` becomes `"2.5M"`, and negative counts keep their sign.
pub fn format_tokens_compact(n: i64) -> (s: String)
    ensures
        s@ == spec_compact_i64(n as int),
{
    if n < 0 {
        let magnitude: u64 = if n == i64::MIN {
            9223372036854775808u64
        } else {
            (-n) as u64
        };
        let mut s = String::from_str("-");
        let rest = compact_u64(magnitude);
        s.append(rest.as_str());
        proof {
            assert(s@ =~= spec_compact_i64(n as int));
        }
        s
    } else {
        compact_u64(n as u64)
    }
}

/// The index of the last `/` in `s`, or `-1` when there is none.
pub open spec fn last_slash(s: Seq<char>) -> int
    decreases s.len(),
{
    if s.len() == 0 {
        -1
    } else if s.last() == '/' {
        s.len() - 1
    } else {
        last_slash(s.drop_last())
    }
}

/// The final path component of `s`: everything after the last `/`.  When `s`
/// holds no `/`, or ends with one, there is no extractable component and the
/// whole string stands in.
pub open spec fn spec_basename(s: Seq<char>) -> Seq<char> {
    let i = last_slash(s);
    if i < 0 || i == s.len() - 1 {
        s
    } else {
        s.subrange(i + 1, s.len() as int)
    }
}

proof fn lemma_last_slash(s: Seq<char>)
    ensures
        last_slash(s) >= -1,
        last_slash(s) == -1 ==> forall|k: int| 0 <= k < s.len() ==> s[k] != '/',
        last_slash(s) >= 0 ==> 0 <= last_slash(s) < s.len() && s[last_slash(s)] == '/' && forall|
            k: int,
        | last_slash(s) < k < s.len() ==> s[k] != '/',
    decreases s.len(),
{
    if s.len() > 0 && s.last() != '/' {
        lemma_last_slash(s.drop_last());
        assert forall|k: int| 0 <= k < s.len() - 1 implies s.drop_last()[k] == s[k] by {}
    }
}

/// Display form of a recorded file path: its basename where one can be
/// extracted, else the full path string.
pub fn basename_of(path: &str) -> (r: String)
    ensures
        r@ == spec_basename(path@),
{
    let n = path.unicode_len();
    let mut i: usize = n;
    while i > 0 && path.get_char(i - 1) != '/'
        invariant
            i <= n,
            n == path@.len(),
            forall|k: int| i <= k < n ==> path@[k] != '/',
        decreases i,
    {
        i = i - 1;
    }
    proof {
        lemma_last_slash(path@);
        let r = last_slash(path@);
        if i == 0 {
            if r >= 0 {
                assert(path@[r] == '/');
                assert(false);
            }
        } else {
            assert(path@[i - 1] == '/');
            if r < i - 1 {
                assert(path@[i - 1] != '/');
            }
            if r > i - 1 {
                assert(path@[r] == '/');
                assert(path@[r] != '/');
            }
            assert(r == i - 1);
        }
    }
    if i == 0 || i == n {
        String::from_str(path)
    } else {
        let tail = path.substring_char(i, n);
        String::from_str(tail)
    }
}

} // verus!
