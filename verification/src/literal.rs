//! Literal extraction: the last resort of symbol resolution.
//!
//! A token is a numeric literal when it follows the grammar of Rust's
//! 64-bit float parser: an optional sign, then either one of the words
//! `inf`, `infinity` or `nan` in any letter case, or a decimal number
//! `digits [. digits] [(e|E) [sign] digits]` with at least one digit in the
//! mantissa and, if an exponent marker stands, at least one digit after it.
//! A token is a string literal when it is wrapped in double quotes and longer
//! than two characters; its value is the text between the quotes.

use vstd::prelude::*;
use vstd::string::StrSliceExecFns;

verus! {

/// An ASCII decimal digit.
pub open spec fn is_decimal_digit(c: char) -> bool {
    '0' <= c && c <= '9'
}

/// Every character of `s` is a decimal digit.
pub open spec fn all_digits(s: Seq<char>) -> bool {
    forall|i: int| 0 <= i < s.len() ==> is_decimal_digit(#[trigger] s[i])
}

/// A sign character.
pub open spec fn is_sign(c: char) -> bool {
    c == '+' || c == '-'
}

/// The words `inf`, `infinity` and `nan`, in any letter case.
pub open spec fn is_special_number(s: Seq<char>) -> bool {
    ||| (s.len() == 3 && (s[0] == 'i' || s[0] == 'I') && (s[1] == 'n' || s[1] == 'N') && (s[2]
        == 'f' || s[2] == 'F'))
    ||| (s.len() == 8 && (s[0] == 'i' || s[0] == 'I') && (s[1] == 'n' || s[1] == 'N') && (s[2]
        == 'f' || s[2] == 'F') && (s[3] == 'i' || s[3] == 'I') && (s[4] == 'n' || s[4] == 'N') && (
    s[5] == 'i' || s[5] == 'I') && (s[6] == 't' || s[6] == 'T') && (s[7] == 'y' || s[7] == 'Y'))
    ||| (s.len() == 3 && (s[0] == 'n' || s[0] == 'N') && (s[1] == 'a' || s[1] == 'A') && (s[2]
        == 'n' || s[2] == 'N'))
}

/// A mantissa: `digits`, `digits . digits`, `digits .` or `. digits`, with at
/// least one digit in it.
pub open spec fn is_mantissa(s: Seq<char>) -> bool {
    ||| (s.len() > 0 && all_digits(s))
    ||| (exists|i: int|
        0 <= i < s.len() && s[i] == '.' && all_digits(s.take(i)) && all_digits(s.skip(i + 1))
            && s.len() > 1)
}

/// An exponent part: `e` or `E`, an optional sign, then at least one digit.
pub open spec fn is_exponent(s: Seq<char>) -> bool {
    &&& s.len() >= 2
    &&& (s[0] == 'e' || s[0] == 'E')
    &&& {
        let t = if is_sign(s[1]) {
            s.skip(2)
        } else {
            s.skip(1)
        };
        t.len() > 0 && all_digits(t)
    }
}

/// A decimal number: a mantissa followed by an optional exponent part.
pub open spec fn is_number(s: Seq<char>) -> bool {
    exists|i: int|
        0 <= i <= s.len() && is_mantissa(#[trigger] s.take(i)) && (i == s.len() || is_exponent(
            s.skip(i),
        ))
}

/// A numeric literal: what Rust's 64-bit float parser accepts.
pub open spec fn is_numeric_literal(s: Seq<char>) -> bool {
    let body = if s.len() > 0 && is_sign(s[0]) {
        s.skip(1)
    } else {
        s
    };
    is_special_number(body) || is_number(body)
}

/// What a token stands for as a literal: a numeric literal stands for itself,
/// a quoted string of more than two characters stands for the text between
/// the quotes, and anything else is no literal.
pub open spec fn literal_value(s: Seq<char>) -> Option<Seq<char>> {
    if is_numeric_literal(s) {
        Some(s)
    } else if s.len() > 2 && s[0] == '"' && s[s.len() - 1] == '"' {
        Some(s.subrange(1, s.len() - 1))
    } else {
        None
    }
}

/// A quoted token is no numeric literal: it opens with a double quote, which
/// can start neither a sign, nor one of the special words, nor a number.
pub proof fn lemma_quoted_is_not_numeric(s: Seq<char>)
    requires
        s.len() > 0,
        s[0] == '"',
    ensures
        !is_numeric_literal(s),
{
    assert(!is_sign(s[0]));
    if is_number(s) {
        let i = choose|i: int|
            0 <= i <= s.len() && is_mantissa(#[trigger] s.take(i)) && (i == s.len() || is_exponent(
                s.skip(i),
            ));
        let t = s.take(i);
        if i == 0 {
            assert(!is_mantissa(t));
        } else {
            assert(t[0] == s[0]);
            if t.len() > 0 && all_digits(t) {
                assert(is_decimal_digit(t[0]));
            } else {
                let d = choose|d: int|
                    0 <= d < t.len() && t[d] == '.' && all_digits(t.take(d)) && all_digits(
                        t.skip(d + 1),
                    ) && t.len() > 1;
                if d == 0 {
                    assert(t[0] == '.');
                } else {
                    assert(t.take(d)[0] == t[0]);
                    assert(is_decimal_digit(t[0]));
                }
            }
        }
        assert(false);
    }
}

/// The characters of a string slice, as a vector.
pub fn chars_of(s: &str) -> (r: Vec<char>)
    ensures
        r@ == s@,
{
    let n = s.unicode_len();
    let mut v: Vec<char> = Vec::new();
    let mut i: usize = 0;
    while i < n
        invariant
            n == s@.len(),
            i <= n,
            v@.len() == i,
            forall|j: int| 0 <= j < i ==> v@[j] == s@[j],
        decreases n - i,
    {
        v.push(s.get_char(i));
        i = i + 1;
    }
    proof {
        assert(v@ =~= s@);
    }
    v
}

/// Scans for digits: whether every character of `v` in `[from, to)` is a
/// decimal digit.
fn digits_in_range(v: &Vec<char>, from: usize, to: usize) -> (r: bool)
    requires
        from <= to <= v@.len(),
    ensures
        r == all_digits(v@.subrange(from as int, to as int)),
{
    let ghost sub = v@.subrange(from as int, to as int);
    let mut i: usize = from;
    while i < to
        invariant
            from <= i <= to <= v@.len(),
            sub == v@.subrange(from as int, to as int),
            forall|j: int| 0 <= j < i - from ==> is_decimal_digit(#[trigger] sub[j]),
        decreases to - i,
    {
        let c = v[i];
        if !('0' <= c && c <= '9') {
            proof {
                assert(sub[i - from] == v@[i as int]);
            }
            return false;
        }
        proof {
            assert(sub[i - from] == v@[i as int]);
        }
        i = i + 1;
    }
    true
}

/// The first position in `[from, v.len())` holding one of two characters, or
/// the length if there is none.
fn find_char2(v: &Vec<char>, from: usize, a: char, b: char) -> (r: usize)
    requires
        from <= v@.len(),
    ensures
        from <= r <= v@.len(),
        forall|j: int| from <= j < r ==> v@[j] != a && v@[j] != b,
        r < v@.len() ==> (v@[r as int] == a || v@[r as int] == b),
{
    let n = v.len();
    let mut i: usize = from;
    while i < n
        invariant
            from <= i <= n,
            n == v@.len(),
            forall|j: int| from <= j < i ==> v@[j] != a && v@[j] != b,
        decreases n - i,
    {
        let c = v[i];
        if c == a || c == b {
            return i;
        }
        i = i + 1;
    }
    n
}

/// Checks the mantissa form of `v` in `[from, to)`.
fn check_mantissa(v: &Vec<char>, from: usize, to: usize) -> (r: bool)
    requires
        from <= to <= v@.len(),
    ensures
        r == is_mantissa(v@.subrange(from as int, to as int)),
{
    let ghost sub = v@.subrange(from as int, to as int);
    let d = find_char2(v, from, '.', '.');
    if d >= to {
        // no dot inside the mantissa range
        let r = from < to && digits_in_range(v, from, to);
        proof {
            if r {
                assert(is_mantissa(sub));
            } else {
                if is_mantissa(sub) {
                    if exists|i: int|
                        0 <= i < sub.len() && sub[i] == '.' && all_digits(sub.take(i))
                            && all_digits(sub.skip(i + 1)) && sub.len() > 1 {
                        let i = choose|i: int|
                            0 <= i < sub.len() && sub[i] == '.' && all_digits(sub.take(i))
                                && all_digits(sub.skip(i + 1)) && sub.len() > 1;
                        assert(v@[from + i] == sub[i]);
                        assert(false);
                    }
                }
            }
        }
        r
    } else {
        // a dot stands at d, the first one in the range
        let ghost di = d - from;
        let digits_before = digits_in_range(v, from, d);
        let digits_after = digits_in_range(v, d + 1, to);
        let r = digits_before && digits_after && to - from > 1;
        proof {
            assert(sub[di] == v@[d as int]);
            assert(v@.subrange(from as int, d as int) =~= sub.take(di));
            assert(v@.subrange(d as int + 1, to as int) =~= sub.skip(di + 1));
            if r {
                assert(is_mantissa(sub));
            } else {
                if is_mantissa(sub) {
                    if sub.len() > 0 && all_digits(sub) {
                        assert(is_decimal_digit(sub[di]));
                        assert(false);
                    } else {
                        let i = choose|i: int|
                            0 <= i < sub.len() && sub[i] == '.' && all_digits(sub.take(i))
                                && all_digits(sub.skip(i + 1)) && sub.len() > 1;
                        // the chosen dot cannot stand before d, the first dot
                        assert(v@[from + i] == sub[i]);
                        assert(i >= di);
                        // nor after it: the characters before the chosen dot
                        // are all digits, and a digit is no dot
                        if i > di {
                            assert(sub.take(i)[di] == sub[di]);
                            assert(is_decimal_digit(sub[di]));
                            assert(false);
                        }
                        assert(i == di);
                        assert(false);
                    }
                }
            }
        }
        r
    }
}

/// Checks the exponent form of `v` in `[from, v.len())`: `from` already
/// holds the exponent marker.
fn check_exponent(v: &Vec<char>, from: usize) -> (r: bool)
    requires
        from < v@.len(),
        v@[from as int] == 'e' || v@[from as int] == 'E',
    ensures
        r == is_exponent(v@.skip(from as int)),
{
    let ghost sub = v@.skip(from as int);
    let n = v.len();
    if from + 1 >= n {
        return false;
    }
    let c = v[from + 1];
    let digits_from: usize = if c == '+' || c == '-' {
        from + 2
    } else {
        from + 1
    };
    let r = digits_from < n && digits_in_range(v, digits_from, n);
    proof {
        assert(sub[0] == v@[from as int]);
        assert(sub[1] == v@[from as int + 1]);
        if is_sign(c) {
            assert(v@.subrange(from as int + 2, n as int) =~= sub.skip(2));
        } else {
            assert(v@.subrange(from as int + 1, n as int) =~= sub.skip(1));
        }
    }
    r
}

/// Checks the decimal-number form of `v` in `[from, v.len())`.
fn check_number(v: &Vec<char>, from: usize) -> (r: bool)
    requires
        from <= v@.len(),
    ensures
        r == is_number(v@.skip(from as int)),
{
    let ghost sub = v@.skip(from as int);
    let n = v.len();
    let e = find_char2(v, from, 'e', 'E');
    let ghost k = e - from;
    let mantissa_ok = check_mantissa(v, from, e);
    let r = mantissa_ok && (e == n || check_exponent(v, e));
    proof {
        assert(v@.subrange(from as int, e as int) =~= sub.take(k));
        if e < n {
            assert(v@.skip(e as int) =~= sub.skip(k));
            assert(sub[k] == v@[e as int]);
        }
        assert(forall|j: int| 0 <= j < k ==> #[trigger] sub[j] == v@[from + j]);
        lemma_number_split(sub, k);
    }
    r
}

/// The split of a decimal number at the first exponent marker is the only
/// split its grammar admits.
proof fn lemma_number_split(s: Seq<char>, k: int)
    requires
        0 <= k <= s.len(),
        forall|j: int| 0 <= j < k ==> #[trigger] s[j] != 'e' && s[j] != 'E',
        k < s.len() ==> (s[k] == 'e' || s[k] == 'E'),
    ensures
        is_number(s) == (is_mantissa(s.take(k)) && (k == s.len() || is_exponent(s.skip(k)))),
{
    if is_mantissa(s.take(k)) && (k == s.len() || is_exponent(s.skip(k))) {
        assert(is_number(s));
    }
    if is_number(s) {
        let i = choose|i: int|
            0 <= i <= s.len() && is_mantissa(#[trigger] s.take(i)) && (i == s.len() || is_exponent(
                s.skip(i),
            ));
        if i < k {
            // an exponent part would have to start with a marker, but no
            // marker stands before k
            assert(i < s.len());
            assert(s.skip(i)[0] == s[i]);
            assert(false);
        }
        if i > k {
            // the mantissa would contain the marker at k, which is neither a
            // digit nor a dot
            assert(k < s.len());
            let t = s.take(i);
            assert(t[k] == s[k]);
            if t.len() > 0 && all_digits(t) {
                assert(is_decimal_digit(t[k]));
                assert(false);
            } else {
                let d = choose|d: int|
                    0 <= d < t.len() && t[d] == '.' && all_digits(t.take(d)) && all_digits(
                        t.skip(d + 1),
                    ) && t.len() > 1;
                if k < d {
                    assert(t.take(d)[k] == t[k]);
                    assert(is_decimal_digit(t[k]));
                } else if k > d {
                    assert(t.skip(d + 1)[k - d - 1] == t[k]);
                    assert(is_decimal_digit(t[k]));
                }
                assert(false);
            }
        }
        assert(i == k);
    }
}

/// Whether the characters form a numeric literal.
pub fn is_numeric_chars(v: &Vec<char>) -> (r: bool)
    ensures
        r == is_numeric_literal(v@),
{
    let n = v.len();
    let start: usize = if n > 0 && (v[0] == '+' || v[0] == '-') {
        1
    } else {
        0
    };
    let ghost body = if v@.len() > 0 && is_sign(v@[0]) {
        v@.skip(1)
    } else {
        v@
    };
    proof {
        if start == 1 {
            assert(body =~= v@.skip(1));
        } else {
            assert(body =~= v@.skip(0));
            assert(v@.skip(0) =~= v@);
        }
    }
    if is_special_chars(v, start) {
        return true;
    }
    let r = check_number(v, start);
    proof {
        assert(v@.skip(start as int) =~= body);
    }
    r
}

/// Whether the characters from `from` on spell `inf`, `infinity` or `nan` in
/// any letter case.
fn is_special_chars(v: &Vec<char>, from: usize) -> (r: bool)
    requires
        from <= v@.len(),
    ensures
        r == is_special_number(v@.skip(from as int)),
{
    let ghost sub = v@.skip(from as int);
    proof {
        assert(forall|j: int| 0 <= j < sub.len() ==> #[trigger] sub[j] == v@[from + j]);
    }
    let n = v.len();
    let len = n - from;
    if len == 3 {
        let c0 = v[from];
        let c1 = v[from + 1];
        let c2 = v[from + 2];
        ((c0 == 'i' || c0 == 'I') && (c1 == 'n' || c1 == 'N') && (c2 == 'f' || c2 == 'F')) || ((c0
            == 'n' || c0 == 'N') && (c1 == 'a' || c1 == 'A') && (c2 == 'n' || c2 == 'N'))
    } else if len == 8 {
        let c0 = v[from];
        let c1 = v[from + 1];
        let c2 = v[from + 2];
        let c3 = v[from + 3];
        let c4 = v[from + 4];
        let c5 = v[from + 5];
        let c6 = v[from + 6];
        let c7 = v[from + 7];
        (c0 == 'i' || c0 == 'I') && (c1 == 'n' || c1 == 'N') && (c2 == 'f' || c2 == 'F') && (c3
            == 'i' || c3 == 'I') && (c4 == 'n' || c4 == 'N') && (c5 == 'i' || c5 == 'I') && (c6
            == 't' || c6 == 'T') && (c7 == 'y' || c7 == 'Y')
    } else {
        false
    }
}

/// Extracts the literal a token stands for, if it stands for one.
pub fn extract_literal(source: &String) -> (r: Option<String>)
    ensures
        match r {
            Some(v) => literal_value(source@) == Some(v@),
            None => literal_value(source@) is None,
        },
{
    let chars = chars_of(source.as_str());
    if is_numeric_chars(&chars) {
        return Some(source.clone());
    }
    let n = chars.len();
    if n > 2 && chars[0] == '"' && chars[n - 1] == '"' {
        let inner = source.as_str().substring_char(1, n - 1).to_owned();
        proof {
            assert(inner@ =~= source@.subrange(1, source@.len() - 1));
        }
        Some(inner)
    } else {
        None
    }
}

} // verus!
