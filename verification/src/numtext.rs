//! Verified recognizers for numeric field text.
//!
//! The block validator accepts a string field when it reads as a number:
//! an optionally-signed decimal integer in 32-bit range for amounts, and a
//! float literal (decimal digits with an optional point and exponent, or a
//! case-insensitive infinity / not-a-number word) for durations.

use vstd::prelude::*;
use vstd::string::StrSliceExecFns;

verus! {

pub open spec fn is_digit(c: char) -> bool {
    '0' <= c && c <= '9'
}

pub open spec fn all_digits(s: Seq<char>) -> bool {
    forall|i: int| 0 <= i < s.len() ==> is_digit(#[trigger] s[i])
}

pub open spec fn digit_val(c: char) -> int {
    c as int - '0' as int
}

/// The value of a digit string, most significant first.
pub open spec fn digits_val(s: Seq<char>) -> int
    decreases s,
{
    if s.len() == 0 {
        0
    } else {
        digits_val(s.subrange(0, s.len() - 1)) * 10 + digit_val(s[s.len() - 1])
    }
}

proof fn lemma_digits_val_nonneg(s: Seq<char>)
    requires
        all_digits(s),
    ensures
        digits_val(s) >= 0,
    decreases s.len(),
{
    if s.len() > 0 {
        let pre = s.subrange(0, s.len() - 1);
        assert(all_digits(pre));
        lemma_digits_val_nonneg(pre);
    }
}

/// A signed decimal integer that fits a 32-bit signed word.
pub open spec fn spec_is_i32_string(s: Seq<char>) -> bool {
    let digits = if s.len() > 0 && (s[0] == '+' || s[0] == '-') {
        s.subrange(1, s.len() as int)
    } else {
        s
    };
    let neg = s.len() > 0 && s[0] == '-';
    digits.len() > 0 && all_digits(digits) && (if neg {
        digits_val(digits) <= 0x8000_0000
    } else {
        digits_val(digits) <= 0x7fff_ffff
    })
}

/// The characters of a string slice, in order.
fn chars_of(s: &str) -> (r: Vec<char>)
    ensures
        r@ == s@,
{
    let n = s.unicode_len();
    let mut out: Vec<char> = Vec::new();
    let mut i: usize = 0;
    while i < n
        invariant
            i <= n,
            n == s@.len(),
            out@ =~= s@.subrange(0, i as int),
        decreases n - i,
    {
        out.push(s.get_char(i));
        proof {
            assert(out@ =~= s@.subrange(0, i + 1));
        }
        i += 1;
    }
    proof {
        assert(s@.subrange(0, s@.len() as int) =~= s@);
    }
    out
}

/// Whether `v[lo..hi]` is all decimal digits.
#[verifier::loop_isolation(false)]
fn all_digits_range(v: &Vec<char>, lo: usize, hi: usize) -> (r: bool)
    requires
        lo <= hi <= v@.len(),
    ensures
        r == all_digits(v@.subrange(lo as int, hi as int)),
{
    let ghost sub = v@.subrange(lo as int, hi as int);
    let mut i: usize = lo;
    while i < hi
        invariant
            lo <= i <= hi,
            forall|j: int| lo <= j < i ==> is_digit(#[trigger] v@[j]),
        decreases hi - i,
    {
        let c = v[i];
        if !(c >= '0' && c <= '9') {
            proof {
                assert(sub[i - lo] == v@[i as int]);
                assert(!is_digit(sub[i - lo]));
            }
            return false;
        }
        i += 1;
    }
    proof {
        assert forall|k: int| 0 <= k < sub.len() implies is_digit(#[trigger] sub[k]) by {
            assert(sub[k] == v@[lo + k]);
        }
    }
    true
}

/// Whether the whole string parses as a 32-bit signed integer.
#[verifier::loop_isolation(false)]
pub fn is_i32_string(s: &str) -> (r: bool)
    ensures
        r == spec_is_i32_string(s@),
{
    let v = chars_of(s);
    let n = v.len();
    let signed = n > 0 && (v[0] == '+' || v[0] == '-');
    let neg = n > 0 && v[0] == '-';
    let lo: usize = if signed {
        1
    } else {
        0
    };
    let ghost digits = v@.subrange(lo as int, n as int);
    if n == lo {
        return false;
    }
    let mut acc: u64 = 0;
    let mut too_big = false;
    let mut i: usize = lo;
    while i < n
        invariant
            lo <= i <= n,
            n == v@.len(),
            forall|j: int| lo <= j < i ==> is_digit(#[trigger] v@[j]),
            !too_big ==> acc == digits_val(v@.subrange(lo as int, i as int)) && acc
                <= 0x8000_0000,
            too_big ==> digits_val(v@.subrange(lo as int, i as int)) > 0x8000_0000,
        decreases n - i,
    {
        let c = v[i];
        if !(c >= '0' && c <= '9') {
            proof {
                assert(digits[i - lo] == v@[i as int]);
                assert(!all_digits(digits));
            }
            return false;
        }
        let d: u64 = (c as u32 - 48) as u64;
        let ghost pre = v@.subrange(lo as int, i as int);
        let ghost cur = v@.subrange(lo as int, i + 1);
        proof {
            assert(cur.subrange(0, cur.len() - 1) =~= pre);
            assert(cur[cur.len() - 1] == v@[i as int]);
            assert(digits_val(cur) == digits_val(pre) * 10 + digit_val(v@[i as int]));
            assert(digit_val(v@[i as int]) == d as int);
        }
        if !too_big {
            let next = acc * 10 + d;
            if next > 0x8000_0000 {
                too_big = true;
            } else {
                acc = next;
            }
        } else {
            proof {
                assert forall|k: int| 0 <= k < pre.len() implies is_digit(#[trigger] pre[k]) by {
                    assert(pre[k] == v@[lo + k]);
                }
                lemma_digits_val_nonneg(pre);
                assert(digits_val(pre) * 10 + digit_val(v@[i as int]) > digits_val(pre)) by (
                nonlinear_arith)
                    requires
                        digits_val(pre) > 0,
                        digit_val(v@[i as int]) >= 0,
                ;
            }
        }
        i += 1;
    }
    proof {
        assert(v@.subrange(lo as int, n as int) == digits);
        assert forall|k: int| 0 <= k < digits.len() implies is_digit(#[trigger] digits[k]) by {
            assert(digits[k] == v@[lo + k]);
        }
        assert(!too_big ==> acc == digits_val(digits));
        assert(too_big ==> digits_val(digits) > 0x8000_0000);
        assert(s@ == v@);
        assert(digits == (if s@.len() > 0 && (s@[0] == '+' || s@[0] == '-') {
            s@.subrange(1, s@.len() as int)
        } else {
            s@
        }));
    }
    if too_big {
        false
    } else {
        if neg {
            acc <= 0x8000_0000
        } else {
            acc <= 0x7fff_ffff
        }
    }
}

/// Case-insensitive match of one character against a lowercase letter.
pub open spec fn char_ci(c: char, lower: char) -> bool {
    c == lower || c as int + 32 == lower as int
}

/// The infinity and not-a-number words, case-insensitive.
pub open spec fn is_inf_nan(s: Seq<char>) -> bool {
    (s.len() == 3 && char_ci(s[0], 'i') && char_ci(s[1], 'n') && char_ci(s[2], 'f')) || (s.len()
        == 3 && char_ci(s[0], 'n') && char_ci(s[1], 'a') && char_ci(s[2], 'n')) || (s.len() == 8
        && char_ci(s[0], 'i') && char_ci(s[1], 'n') && char_ci(s[2], 'f') && char_ci(s[3], 'i')
        && char_ci(s[4], 'n') && char_ci(s[5], 'i') && char_ci(s[6], 't') && char_ci(s[7], 'y'))
}

/// Digits with an optional decimal point somewhere, at least one digit.
pub open spec fn is_mantissa(s: Seq<char>) -> bool {
    (s.len() > 0 && all_digits(s)) || (s.len() > 1 && exists|i: int|
        0 <= i < s.len() && #[trigger] s[i] == '.' && all_digits(s.subrange(0, i)) && all_digits(
            s.subrange(i + 1, s.len() as int),
        ))
}

/// An optionally-signed nonempty digit string, as an exponent expects.
pub open spec fn is_exp_suffix(s: Seq<char>) -> bool {
    let d = if s.len() > 0 && (s[0] == '+' || s[0] == '-') {
        s.subrange(1, s.len() as int)
    } else {
        s
    };
    d.len() > 0 && all_digits(d)
}

/// A mantissa, optionally followed by an exponent marker and suffix.
pub open spec fn is_float_number(s: Seq<char>) -> bool {
    is_mantissa(s) || (exists|j: int|
        0 <= j < s.len() && (#[trigger] s[j] == 'e' || s[j] == 'E') && is_mantissa(
            s.subrange(0, j),
        ) && is_exp_suffix(s.subrange(j + 1, s.len() as int)))
}

/// A float literal: an optional sign, then a number or an infinity or
/// not-a-number word.
pub open spec fn spec_is_float_string(s: Seq<char>) -> bool {
    let body = if s.len() > 0 && (s[0] == '+' || s[0] == '-') {
        s.subrange(1, s.len() as int)
    } else {
        s
    };
    is_inf_nan(body) || is_float_number(body)
}

/// A mantissa holds only digits and a point, never an exponent marker.
proof fn lemma_mantissa_no_exp(s: Seq<char>, k: int)
    requires
        is_mantissa(s),
        0 <= k < s.len(),
    ensures
        s[k] != 'e' && s[k] != 'E',
{
    if s.len() > 0 && all_digits(s) {
        assert(is_digit(s[k]));
    } else {
        let i = choose|i: int|
            0 <= i < s.len() && #[trigger] s[i] == '.' && all_digits(s.subrange(0, i))
                && all_digits(s.subrange(i + 1, s.len() as int));
        if k < i {
            assert(is_digit(s.subrange(0, i)[k]));
        } else if k > i {
            assert(is_digit(s.subrange(i + 1, s.len() as int)[k - i - 1]));
        }
    }
}

/// First index at or after `lo` holding an exponent marker.
#[verifier::loop_isolation(false)]
fn find_exp(v: &Vec<char>, lo: usize) -> (r: Option<usize>)
    requires
        lo <= v@.len(),
    ensures
        match r {
            Some(j) => lo <= j < v@.len() && (v@[j as int] == 'e' || v@[j as int] == 'E')
                && forall|k: int| lo <= k < j ==> !(#[trigger] v@[k] == 'e' || v@[k] == 'E'),
            None => forall|k: int| lo <= k < v@.len() ==> !(#[trigger] v@[k] == 'e' || v@[k]
                == 'E'),
        },
{
    let mut i: usize = lo;
    while i < v.len()
        invariant
            lo <= i <= v@.len(),
            forall|k: int| lo <= k < i ==> !(#[trigger] v@[k] == 'e' || v@[k] == 'E'),
        decreases v@.len() - i,
    {
        let c = v[i];
        if c == 'e' || c == 'E' {
            return Some(i);
        }
        i += 1;
    }
    None
}

/// First index in `[lo, hi)` holding a decimal point.
#[verifier::loop_isolation(false)]
fn find_dot(v: &Vec<char>, lo: usize, hi: usize) -> (r: Option<usize>)
    requires
        lo <= hi <= v@.len(),
    ensures
        match r {
            Some(j) => lo <= j < hi && v@[j as int] == '.' && forall|k: int|
                lo <= k < j ==> #[trigger] v@[k] != '.',
            None => forall|k: int| lo <= k < hi ==> #[trigger] v@[k] != '.',
        },
{
    let mut i: usize = lo;
    while i < hi
        invariant
            lo <= i <= hi,
            forall|k: int| lo <= k < i ==> #[trigger] v@[k] != '.',
        decreases hi - i,
    {
        if v[i] == '.' {
            return Some(i);
        }
        i += 1;
    }
    None
}

/// Whether `v[lo..hi]` is a mantissa.
#[verifier::loop_isolation(false)]
fn mantissa_check(v: &Vec<char>, lo: usize, hi: usize) -> (r: bool)
    requires
        lo <= hi <= v@.len(),
    ensures
        r == is_mantissa(v@.subrange(lo as int, hi as int)),
{
    let ghost sub = v@.subrange(lo as int, hi as int);
    if hi > lo && all_digits_range(v, lo, hi) {
        return true;
    }
    match find_dot(v, lo, hi) {
        None => {
            proof {
                assert forall|i: int| 0 <= i < sub.len() implies #[trigger] sub[i] != '.' by {
                    assert(sub[i] == v@[lo + i]);
                }
            }
            false
        },
        Some(d) => {
            let head_ok = all_digits_range(v, lo, d);
            let tail_ok = all_digits_range(v, d + 1, hi);
            let whole = hi - lo > 1 && head_ok && tail_ok;
            proof {
                assert(sub[d - lo] == v@[d as int]);
                assert(v@.subrange(lo as int, d as int) =~= sub.subrange(0, d - lo));
                assert(v@.subrange(d + 1, hi as int) =~= sub.subrange(d - lo + 1, sub.len() as int));
                if whole {
                    assert(is_mantissa(sub));
                } else {
                    assert(sub.len() > 0 ==> !all_digits(sub)) by {
                        if sub.len() > 0 && all_digits(sub) {
                            assert(is_digit(sub[d - lo]));
                        }
                    }
                    assert forall|i: int|
                        0 <= i < sub.len() && #[trigger] sub[i] == '.' implies !(all_digits(
                        sub.subrange(0, i),
                    ) && all_digits(sub.subrange(i + 1, sub.len() as int)) && sub.len() > 1) by {
                        if i < d - lo {
                            assert(v@[lo + i] == sub[i]);
                            assert(v@[lo + i] != '.');
                        } else if i > d - lo {
                            if all_digits(sub.subrange(0, i)) {
                                assert(is_digit(sub.subrange(0, i)[d - lo]));
                            }
                        } else {
                            if sub.len() > 1 && all_digits(sub.subrange(0, i)) && all_digits(
                                sub.subrange(i + 1, sub.len() as int),
                            ) {
                                assert(all_digits(v@.subrange(lo as int, d as int)));
                                assert(all_digits(v@.subrange(d + 1, hi as int)));
                            }
                        }
                    }
                    assert(!is_mantissa(sub));
                }
            }
            whole
        },
    }
}

/// Whether `v[lo..]` is an exponent suffix.
#[verifier::loop_isolation(false)]
fn exp_suffix_check(v: &Vec<char>, lo: usize) -> (r: bool)
    requires
        lo <= v@.len(),
    ensures
        r == is_exp_suffix(v@.subrange(lo as int, v@.len() as int)),
{
    let ghost sub = v@.subrange(lo as int, v@.len() as int);
    let n = v.len();
    let signed = lo < n && (v[lo] == '+' || v[lo] == '-');
    let dlo: usize = if signed {
        lo + 1
    } else {
        lo
    };
    proof {
        if signed {
            assert(sub.len() > 0 && (sub[0] == '+' || sub[0] == '-'));
            assert(v@.subrange(dlo as int, n as int) =~= sub.subrange(1, sub.len() as int));
        } else {
            assert(v@.subrange(dlo as int, n as int) =~= sub);
        }
    }
    dlo < n && all_digits_range(v, dlo, n)
}

/// Whether `v[lo..]` is a float number (mantissa with optional exponent).
#[verifier::loop_isolation(false)]
fn float_number_check(v: &Vec<char>, lo: usize) -> (r: bool)
    requires
        lo <= v@.len(),
    ensures
        r == is_float_number(v@.subrange(lo as int, v@.len() as int)),
{
    let ghost sub = v@.subrange(lo as int, v@.len() as int);
    let n = v.len();
    match find_exp(v, lo) {
        None => {
            let m = mantissa_check(v, lo, n);
            proof {
                assert(v@.subrange(lo as int, n as int) == sub);
                assert forall|j: int|
                    0 <= j < sub.len() implies !(#[trigger] sub[j] == 'e' || sub[j] == 'E') by {
                    assert(sub[j] == v@[lo + j]);
                }
            }
            m
        },
        Some(j) => {
            let m = mantissa_check(v, lo, j);
            let ex = exp_suffix_check(v, j + 1);
            proof {
                assert(sub[j - lo] == v@[j as int]);
                assert(v@.subrange(lo as int, j as int) =~= sub.subrange(0, j - lo));
                assert(v@.subrange(j + 1, n as int) =~= sub.subrange(j - lo + 1, sub.len() as int));
                if m && ex {
                    assert(is_float_number(sub));
                } else {
                    if is_mantissa(sub) {
                        lemma_mantissa_no_exp(sub, j - lo);
                    }
                    assert forall|k: int|
                        0 <= k < sub.len() && (#[trigger] sub[k] == 'e' || sub[k] == 'E')
                            implies !(is_mantissa(sub.subrange(0, k)) && is_exp_suffix(
                        sub.subrange(k + 1, sub.len() as int),
                    )) by {
                        if k < j - lo {
                            assert(sub[k] == v@[lo + k]);
                            assert(!(v@[lo + k] == 'e' || v@[lo + k] == 'E'));
                        } else if k > j - lo {
                            if is_mantissa(sub.subrange(0, k)) {
                                lemma_mantissa_no_exp(sub.subrange(0, k), j - lo);
                            }
                        }
                    }
                    assert(!is_float_number(sub));
                }
            }
            m && ex
        },
    }
}

/// Whether one character matches a lowercase letter, ignoring case.
fn char_ci_check(c: char, lower: char) -> (r: bool)
    ensures
        r == char_ci(c, lower),
{
    c == lower || (c as u32) + 32 == lower as u32
}

/// Whether the whole string parses as a float literal.
#[verifier::loop_isolation(false)]
pub fn is_float_string(s: &str) -> (r: bool)
    ensures
        r == spec_is_float_string(s@),
{
    let v = chars_of(s);
    let n = v.len();
    let signed = n > 0 && (v[0] == '+' || v[0] == '-');
    let lo: usize = if signed {
        1
    } else {
        0
    };
    let ghost body = v@.subrange(lo as int, n as int);
    proof {
        if !signed {
            assert(body =~= v@);
        }
    }
    let m = n - lo;
    if m == 3 {
        let inf = char_ci_check(v[lo], 'i') && char_ci_check(v[lo + 1], 'n') && char_ci_check(
            v[lo + 2],
            'f',
        );
        let nan = char_ci_check(v[lo], 'n') && char_ci_check(v[lo + 1], 'a') && char_ci_check(
            v[lo + 2],
            'n',
        );
        if inf || nan {
            proof {
                assert(body[0] == v@[lo as int] && body[1] == v@[lo + 1] && body[2] == v@[lo + 2]);
            }
            return true;
        }
    }
    if m == 8 {
        let infinity = char_ci_check(v[lo], 'i') && char_ci_check(v[lo + 1], 'n')
            && char_ci_check(v[lo + 2], 'f') && char_ci_check(v[lo + 3], 'i') && char_ci_check(
            v[lo + 4],
            'n',
        ) && char_ci_check(v[lo + 5], 'i') && char_ci_check(v[lo + 6], 't') && char_ci_check(
            v[lo + 7],
            'y',
        );
        if infinity {
            proof {
                assert forall|k: int| 0 <= k < 8 implies #[trigger] body[k] == v@[lo + k] by {}
            }
            return true;
        }
    }
    let r = float_number_check(&v, lo);
    proof {
        if is_inf_nan(body) {
            assert(body[0] == v@[lo as int]);
            if body.len() == 3 {
                assert(body[1] == v@[lo + 1] && body[2] == v@[lo + 2]);
            }
            if body.len() == 8 {
                assert(body[1] == v@[lo + 1] && body[2] == v@[lo + 2] && body[3] == v@[lo + 3]
                    && body[4] == v@[lo + 4] && body[5] == v@[lo + 5] && body[6] == v@[lo + 6]
                    && body[7] == v@[lo + 7]);
            }
        }
    }
    r
}

} // verus!
