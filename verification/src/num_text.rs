//! Decimal text for the integer telemetry fields: what a digit string
//! denotes, which byte strings are well-formed signed integers, and
//! verified parsing and formatting between `i32`/`u64` and such text.

use vstd::prelude::*;

verus! {

/// ASCII decimal digit.
pub open spec fn is_digit(b: u8) -> bool {
    48 <= b && b <= 57
}

/// Numeric value of one digit byte.
pub open spec fn digit_val(b: u8) -> int {
    b - 48
}

/// Every byte of `s` is a decimal digit.
pub open spec fn all_digits(s: Seq<u8>) -> bool {
    forall|i: int| 0 <= i < s.len() ==> is_digit(#[trigger] s[i])
}

/// Value denoted by a digit string read most-significant first.
pub open spec fn dec_value(s: Seq<u8>) -> int
    decreases s.len(),
{
    if s.len() == 0 {
        0
    } else {
        dec_value(s.drop_last()) * 10 + digit_val(s.last())
    }
}

/// Non-empty string of digits: the syntax of an unsigned integer field.
pub open spec fn is_uint_text(s: Seq<u8>) -> bool {
    s.len() > 0 && all_digits(s)
}

/// Optional `+`/`-` sign followed by one or more digits: the syntax of a
/// signed integer field.
pub open spec fn is_int_text(s: Seq<u8>) -> bool {
    if s.len() == 0 {
        false
    } else if s[0] == 43 || s[0] == 45 {
        is_uint_text(s.skip(1))
    } else {
        is_uint_text(s)
    }
}

/// Value denoted by signed integer text.
pub open spec fn int_text_value(s: Seq<u8>) -> int {
    if s.len() > 0 && s[0] == 45 {
        -dec_value(s.skip(1))
    } else if s.len() > 0 && s[0] == 43 {
        dec_value(s.skip(1))
    } else {
        dec_value(s)
    }
}

/// `s` is integer text whose value fits an `i32`.
pub open spec fn is_i32_text(s: Seq<u8>) -> bool {
    is_int_text(s) && -0x8000_0000 <= int_text_value(s) && int_text_value(s) < 0x8000_0000
}

/// A digit string denotes a non-negative value.
pub proof fn lemma_dec_value_nonneg(s: Seq<u8>)
    requires
        all_digits(s),
    ensures
        dec_value(s) >= 0,
    decreases s.len(),
{
    if s.len() > 0 {
        lemma_dec_value_nonneg(s.drop_last());
    }
}

/// Canonical decimal text of a non-negative value: no sign, no leading
/// zeros (a single `0` for zero).
pub open spec fn uint_text_of(n: nat) -> Seq<u8>
    decreases n,
{
    if n < 10 {
        seq![(48 + n) as u8]
    } else {
        uint_text_of(n / 10).push((48 + n % 10) as u8)
    }
}

/// Canonical decimal text of a signed value: `-` before the magnitude
/// for negative values.
pub open spec fn int_text_of(v: int) -> Seq<u8> {
    if v < 0 {
        seq![45u8] + uint_text_of((-v) as nat)
    } else {
        uint_text_of(v as nat)
    }
}

/// Canonical unsigned text is well-formed digit text and denotes the
/// value it was formatted from.
pub proof fn lemma_uint_text_of_value(n: nat)
    ensures
        is_uint_text(uint_text_of(n)),
        dec_value(uint_text_of(n)) == n,
    decreases n,
{
    if n < 10 {
        let s = uint_text_of(n);
        assert(s.len() == 1);
        assert(dec_value(s) == dec_value(s.drop_last()) * 10 + digit_val(s.last()));
        assert(s.drop_last() =~= Seq::<u8>::empty());
        assert(dec_value(s.drop_last()) == 0);
        assert(digit_val(s.last()) == n);
    } else {
        lemma_uint_text_of_value(n / 10);
        let s = uint_text_of(n);
        assert(s.drop_last() =~= uint_text_of(n / 10));
        assert(n % 10 < 10) by (nonlinear_arith);
        assert(digit_val(s.last()) == n % 10);
        assert(n / 10 * 10 + n % 10 == n) by (nonlinear_arith);
        assert(dec_value(s) == dec_value(s.drop_last()) * 10 + digit_val(s.last()));
    }
}

/// Canonical signed text is well-formed integer text and denotes the
/// value it was formatted from.
pub proof fn lemma_int_text_of_value(v: int)
    ensures
        is_int_text(int_text_of(v)),
        int_text_value(int_text_of(v)) == v,
{
    if v < 0 {
        lemma_uint_text_of_value((-v) as nat);
        let s = int_text_of(v);
        assert(s.skip(1) =~= uint_text_of((-v) as nat));
    } else {
        lemma_uint_text_of_value(v as nat);
        let s = int_text_of(v);
        if s[0] == 43 || s[0] == 45 {
            assert(is_digit(s[0]));
        }
    }
}

/// Parses signed decimal integer text into an `i32`.  Succeeds exactly on
/// well-formed integer text whose value fits the type, as a strict parser
/// of a telemetry field must: no surrounding space, no other characters.
pub fn parse_i32(s: &[u8]) -> (r: Option<i32>)
    ensures
        r is Some <==> is_i32_text(s@),
        r is Some ==> r == Some(int_text_value(s@) as i32),
{
    if s.len() == 0 {
        return None;
    }
    let mut start: usize = 0;
    let mut neg = false;
    if s[0] == 43 {
        start = 1;
    } else if s[0] == 45 {
        neg = true;
        start = 1;
    }
    if start == s.len() {
        // A sign with no digits after it.
        return None;
    }
    let mut i: usize = start;
    let mut acc: u64 = 0;
    let mut too_big = false;
    while i < s.len()
        invariant
            start <= i <= s@.len(),
            start < s@.len(),
            start == 0 || start == 1,
            start == 1 ==> (s@[0] == 43 || s@[0] == 45),
            start == 0 ==> !(s@[0] == 43 || s@[0] == 45),
            neg <==> (start == 1 && s@[0] == 45),
            all_digits(s@.subrange(start as int, i as int)),
            !too_big ==> acc <= 0x8000_0000 && acc == dec_value(
                s@.subrange(start as int, i as int),
            ),
            too_big ==> dec_value(s@.subrange(start as int, i as int)) > 0x8000_0000,
        decreases s@.len() - i,
    {
        let b = s[i];
        if b < 48 || b > 57 {
            // Not a digit: the text is malformed whichever sign it has.
            assert(!is_int_text(s@)) by {
                if start == 1 {
                    assert(!is_digit(s@.skip(1)[i - 1]));
                } else {
                    assert(!is_digit(s@[i as int]));
                }
            }
            return None;
        }
        let ghost pref = s@.subrange(start as int, i as int);
        let ghost pref2 = s@.subrange(start as int, i + 1);
        proof {
            assert(pref2.drop_last() =~= pref);
            assert(dec_value(pref2) == dec_value(pref) * 10 + digit_val(s@[i as int]));
            lemma_dec_value_nonneg(pref);
        }
        if too_big {
            proof {
                assert(dec_value(pref2) >= dec_value(pref));
            }
        } else {
            let next = acc * 10 + ((b - 48) as u64);
            if next > 0x8000_0000 {
                too_big = true;
            } else {
                acc = next;
            }
        }
        i += 1;
    }
    let ghost digits = s@.subrange(start as int, s@.len() as int);
    proof {
        if start == 1 {
            assert(s@.skip(1) =~= digits);
            assert(is_uint_text(s@.skip(1)));
        } else {
            assert(s@ =~= digits);
        }
        assert(is_int_text(s@));
        assert(int_text_value(s@) == if neg {
            -dec_value(digits)
        } else {
            dec_value(digits)
        });
    }
    if too_big {
        // Magnitude above 2^31: out of range for either sign.
        return None;
    }
    if neg {
        if acc == 0x8000_0000 {
            Some(i32::MIN)
        } else {
            Some(-(acc as i32))
        }
    } else {
        if acc >= 0x8000_0000 {
            // 2^31 itself only fits when negated.
            return None;
        }
        Some(acc as i32)
    }
}

/// Formats a `u64` as canonical decimal text.
pub fn format_u64(n: u64) -> (r: Vec<u8>)
    ensures
        r@ == uint_text_of(n as nat),
{
    let mut r: Vec<u8> = Vec::new();
    if n == 0 {
        r.push(48);
        assert(r@ =~= uint_text_of(0));
        return r;
    }
    let mut m = n;
    while m > 0
        invariant
            m > 0 ==> uint_text_of(n as nat) =~= uint_text_of(m as nat) + r@,
            m == 0 ==> uint_text_of(n as nat) =~= r@,
        decreases m,
    {
        let d = (m % 10) as u8;
        let ghost r_old = r@;
        r.insert(0, 48 + d);
        proof {
            assert(r@ =~= seq![(48 + (m as nat) % 10) as u8] + r_old);
            if m >= 10 {
                assert(uint_text_of(m as nat) =~= uint_text_of((m as nat) / 10) + seq![
                    (48 + (m as nat) % 10) as u8,
                ]);
            }
        }
        m = m / 10;
    }
    r
}

/// Formats an `i32` as canonical decimal text with a `-` sign for
/// negative values.
pub fn format_i32(v: i32) -> (r: Vec<u8>)
    ensures
        r@ == int_text_of(v as int),
{
    if v < 0 {
        let wide: i64 = v as i64;
        let mag: u64 = (-wide) as u64;
        let mut r: Vec<u8> = Vec::new();
        r.push(45);
        let mut digits = format_u64(mag);
        r.append(&mut digits);
        assert(r@ =~= int_text_of(v as int));
        r
    } else {
        let r = format_u64(v as u64);
        r
    }
}

} // verus!
