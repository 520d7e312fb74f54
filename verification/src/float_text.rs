//! Decimal floating-point text.  The three flow/time fields of a
//! telemetry line are decimal floats; the library never computes with
//! them, so it keeps each as its validated text and states here which
//! byte strings are well formed: an optional sign, a mantissa made of
//! digits with at most one point, and an optional exponent.  Negative
//! numbers and scientific notation are accepted.

use vstd::prelude::*;

use crate::num_text::all_digits;
use crate::num_text::is_digit;
use crate::num_text::is_int_text;
use crate::num_text::is_uint_text;

verus! {

/// A leading `+` or `-`.
pub open spec fn is_sign(b: u8) -> bool {
    b == 43 || b == 45
}

/// Mantissa: digits, or digits around a single decimal point with at
/// least one digit on one of its sides.
pub open spec fn is_mantissa(s: Seq<u8>) -> bool {
    is_uint_text(s) || (s.len() >= 2 && exists|i: int|
        0 <= i < s.len() && #[trigger] s[i] == 46 && all_digits(s.take(i)) && all_digits(
            s.skip(i + 1),
        ))
}

/// Exponent marker `e` or `E`.
pub open spec fn is_exp_marker(b: u8) -> bool {
    b == 101 || b == 69
}

/// Mantissa with an optional exponent: marker followed by an optionally
/// signed digit string.
pub open spec fn is_unsigned_float_text(s: Seq<u8>) -> bool {
    is_mantissa(s) || (exists|i: int|
        0 <= i < s.len() && is_exp_marker(#[trigger] s[i]) && is_mantissa(s.take(i)) && is_int_text(
            s.skip(i + 1),
        ))
}

/// Well-formed decimal float text: optionally signed.
pub open spec fn is_float_text(s: Seq<u8>) -> bool {
    is_unsigned_float_text(s) || (s.len() >= 1 && is_sign(s[0]) && is_unsigned_float_text(
        s.skip(1),
    ))
}

/// Every byte of a mantissa is a digit or the decimal point.
pub proof fn lemma_mantissa_chars(s: Seq<u8>, j: int)
    requires
        is_mantissa(s),
        0 <= j < s.len(),
    ensures
        is_digit(s[j]) || s[j] == 46,
{
    if is_uint_text(s) {
    } else {
        let i = choose|i: int|
            0 <= i < s.len() && #[trigger] s[i] == 46 && all_digits(s.take(i)) && all_digits(
                s.skip(i + 1),
            );
        if j < i {
            assert(s.take(i)[j] == s[j]);
            assert(is_digit(s.take(i)[j]));
        } else if j > i {
            assert(s.skip(i + 1)[j - i - 1] == s[j]);
            assert(is_digit(s.skip(i + 1)[j - i - 1]));
        }
    }
}

/// Every byte of float text is a digit, point, exponent marker or sign;
/// in particular float text never holds a field separator or a line
/// terminator.
pub proof fn lemma_float_text_chars(s: Seq<u8>, j: int)
    requires
        is_float_text(s),
        0 <= j < s.len(),
    ensures
        is_digit(s[j]) || s[j] == 46 || is_exp_marker(s[j]) || is_sign(s[j]),
        s[j] != 44,
        s[j] != 10,
{
    if is_unsigned_float_text(s) {
        lemma_unsigned_float_chars(s, j);
    } else {
        if j >= 1 {
            lemma_unsigned_float_chars(s.skip(1), j - 1);
            assert(s.skip(1)[j - 1] == s[j]);
        }
    }
}

/// Every byte of unsigned float text is a digit, point, exponent marker
/// or a sign inside the exponent.
pub proof fn lemma_unsigned_float_chars(s: Seq<u8>, j: int)
    requires
        is_unsigned_float_text(s),
        0 <= j < s.len(),
    ensures
        is_digit(s[j]) || s[j] == 46 || is_exp_marker(s[j]) || is_sign(s[j]),
{
    if is_mantissa(s) {
        lemma_mantissa_chars(s, j);
    } else {
        let i = choose|i: int|
            0 <= i < s.len() && is_exp_marker(#[trigger] s[i]) && is_mantissa(s.take(i))
                && is_int_text(s.skip(i + 1));
        if j < i {
            lemma_mantissa_chars(s.take(i), j);
            assert(s.take(i)[j] == s[j]);
        } else if j > i {
            let t = s.skip(i + 1);
            let k = j - i - 1;
            assert(t[k] == s[j]);
            if t[0] == 43 || t[0] == 45 {
                if k > 0 {
                    assert(t.skip(1)[k - 1] == t[k]);
                    assert(is_digit(t.skip(1)[k - 1]));
                }
            } else {
                assert(is_digit(t[k]));
            }
        }
    }
}

/// First position in `v` holding `a` or `b`, scanning left to right.
fn find_first(v: &[u8], a: u8, b: u8) -> (r: Option<usize>)
    ensures
        match r {
            Some(i) => i < v@.len() && (v@[i as int] == a || v@[i as int] == b) && forall|j: int|
                0 <= j < i ==> v@[j] != a && v@[j] != b,
            None => forall|j: int| 0 <= j < v@.len() ==> v@[j] != a && v@[j] != b,
        },
{
    let mut i: usize = 0;
    while i < v.len()
        invariant
            i <= v@.len(),
            forall|j: int| 0 <= j < i ==> v@[j] != a && v@[j] != b,
        decreases v@.len() - i,
    {
        if v[i] == a || v[i] == b {
            return Some(i);
        }
        i += 1;
    }
    None
}

/// Copy of the byte range `[from, to)` of `v`.
fn sub_bytes(v: &[u8], from: usize, to: usize) -> (r: Vec<u8>)
    requires
        from <= to <= v@.len(),
    ensures
        r@ == v@.subrange(from as int, to as int),
{
    let mut r: Vec<u8> = Vec::new();
    let mut i: usize = from;
    while i < to
        invariant
            from <= i <= to <= v@.len(),
            r@ =~= v@.subrange(from as int, i as int),
        decreases to - i,
    {
        r.push(v[i]);
        proof {
            assert(r@ =~= v@.subrange(from as int, i + 1));
        }
        i += 1;
    }
    r
}

/// All bytes are digits; an empty string passes.
fn check_all_digits(v: &[u8]) -> (r: bool)
    ensures
        r == all_digits(v@),
{
    let mut i: usize = 0;
    while i < v.len()
        invariant
            i <= v@.len(),
            forall|j: int| 0 <= j < i ==> is_digit(#[trigger] v@[j]),
        decreases v@.len() - i,
    {
        let b = v[i];
        if b < 48 || b > 57 {
            return false;
        }
        i += 1;
    }
    true
}

/// Non-empty and all digits.
fn check_digits(v: &[u8]) -> (r: bool)
    ensures
        r == is_uint_text(v@),
{
    if v.len() == 0 {
        return false;
    }
    check_all_digits(v)
}

/// Optionally signed non-empty digit string.
fn check_int_text(v: &[u8]) -> (r: bool)
    ensures
        r == is_int_text(v@),
{
    if v.len() == 0 {
        return false;
    }
    if v[0] == 43 || v[0] == 45 {
        let rest = sub_bytes(v, 1, v.len());
        let r = check_digits(&rest);
        proof {
            assert(rest@ =~= v@.skip(1));
        }
        r
    } else {
        check_digits(v)
    }
}

/// Digits with at most one decimal point and at least one digit.
fn check_mantissa(v: &[u8]) -> (r: bool)
    ensures
        r == is_mantissa(v@),
{
    match find_first(v, 46, 46) {
        None => {
            let r = check_digits(v);
            proof {
                if !r {
                    // Without a point, only the digit branch could hold.
                    assert(!is_mantissa(v@));
                }
            }
            r
        },
        Some(d) => {
            proof {
                // A point rules the all-digit branch out.
                assert(!is_digit(v@[d as int]));
            }
            if v.len() < 2 {
                return false;
            }
            let before = sub_bytes(v, 0, d);
            let after = sub_bytes(v, d + 1, v.len());
            let r = check_all_digits(&before) && check_all_digits(&after);
            proof {
                assert(before@ =~= v@.take(d as int));
                assert(after@ =~= v@.skip(d + 1));
                if !r && is_mantissa(v@) {
                    let i = choose|i: int|
                        0 <= i < v@.len() && #[trigger] v@[i] == 46 && all_digits(v@.take(i))
                            && all_digits(v@.skip(i + 1));
                    if i != d {
                        // `d` is the first point, so the witness sits
                        // after it and the digits before the witness
                        // would have to include `d`.
                        assert(v@.take(i)[d as int] == v@[d as int]);
                        assert(is_digit(v@.take(i)[d as int]));
                    }
                    assert(false);
                }
            }
            r
        },
    }
}

/// Mantissa with optional exponent.
fn check_unsigned_float(v: &[u8]) -> (r: bool)
    ensures
        r == is_unsigned_float_text(v@),
{
    match find_first(v, 101, 69) {
        None => {
            let r = check_mantissa(v);
            proof {
                if !r && is_unsigned_float_text(v@) {
                    let i = choose|i: int|
                        0 <= i < v@.len() && is_exp_marker(#[trigger] v@[i]) && is_mantissa(
                            v@.take(i),
                        ) && is_int_text(v@.skip(i + 1));
                    assert(false);
                }
            }
            r
        },
        Some(m) => {
            let n = v.len();
            let before = sub_bytes(v, 0, m);
            let after = sub_bytes(v, m + 1, n);
            let r = check_mantissa(&before) && check_int_text(&after);
            proof {
                assert(before@ =~= v@.take(m as int));
                assert(after@ =~= v@.skip(m + 1));
                if r {
                    assert(is_unsigned_float_text(v@));
                } else {
                    if is_unsigned_float_text(v@) {
                        if is_mantissa(v@) {
                            // A mantissa never holds an exponent marker.
                            lemma_mantissa_chars(v@, m as int);
                            assert(false);
                        } else {
                            let i = choose|i: int|
                                0 <= i < v@.len() && is_exp_marker(#[trigger] v@[i]) && is_mantissa(
                                    v@.take(i),
                                ) && is_int_text(v@.skip(i + 1));
                            if i != m {
                                // `m` is the first marker, so the witness
                                // mantissa before `i` would hold it.
                                lemma_mantissa_chars(v@.take(i), m as int);
                                assert(v@.take(i)[m as int] == v@[m as int]);
                            }
                            assert(false);
                        }
                    }
                }
            }
            r
        },
    }
}

/// Decides whether `v` is well-formed decimal float text.
pub fn check_float_text(v: &[u8]) -> (r: bool)
    ensures
        r == is_float_text(v@),
{
    if v.len() == 0 {
        return false;
    }
    if v[0] == 43 || v[0] == 45 {
        let rest = sub_bytes(v, 1, v.len());
        let r = check_unsigned_float(&rest);
        proof {
            assert(rest@ =~= v@.skip(1));
            if r {
                assert(is_float_text(v@));
            } else {
                if is_float_text(v@) {
                    if is_unsigned_float_text(v@) {
                        // Signed text cannot itself be an unsigned float:
                        // its first byte is a sign, not a digit or point,
                        // and a mantissa never starts with a sign.
                        lemma_unsigned_float_chars(v@, 0);
                        lemma_signed_head_not_unsigned(v@);
                    }
                    assert(false);
                }
            }
        }
        r
    } else {
        let r = check_unsigned_float(v);
        proof {
            if !r && is_float_text(v@) {
                assert(is_sign(v@[0]));
                assert(false);
            }
        }
        r
    }
}

/// Unsigned float text never starts with a sign byte.
pub proof fn lemma_signed_head_not_unsigned(s: Seq<u8>)
    requires
        s.len() >= 1,
        is_sign(s[0]),
    ensures
        !is_unsigned_float_text(s),
{
    if is_unsigned_float_text(s) {
        if is_mantissa(s) {
            lemma_mantissa_chars(s, 0);
        } else {
            let i = choose|i: int|
                0 <= i < s.len() && is_exp_marker(#[trigger] s[i]) && is_mantissa(s.take(i))
                    && is_int_text(s.skip(i + 1));
            if i == 0 {
                assert(is_exp_marker(s[0]));
            } else {
                lemma_mantissa_chars(s.take(i), 0);
                assert(s.take(i)[0] == s[0]);
            }
        }
    }
}

} // verus!
