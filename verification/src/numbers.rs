//! Decimal number texts.
//!
//! The weather providers answer with JSON, and the numbers in a JSON document
//! reach this crate as their decimal texts (see [`crate::json`]).  This module
//! gives those texts meaning: an integer text becomes an `i64`, a decimal
//! fraction becomes a temperature in thousandths of a unit, truncated toward
//! zero after the third fraction digit.

use vstd::prelude::*;

verus! {

/// Quotient of `a` by `b`, rounded toward negative infinity; this is the
/// division of the specification language for a positive divisor.
pub fn floor_div_i128(a: i128, b: i128) -> (q: i128)
    requires
        b > 0,
        i128::MIN < a,
    ensures
        q == a as int / b as int,
{
    let t = a / b;
    let r = a % b;
    if r < 0 {
        proof {
            let m = -(a as int);
            let bi = b as int;
            vstd::arithmetic::div_mod::lemma_fundamental_div_mod(m, bi);
            vstd::arithmetic::div_mod::lemma_div_pos_is_pos(m, bi);
            vstd::arithmetic::div_mod::lemma_div_nonincreasing(m, bi);
            assert(a as int == (-(m / bi) - 1) * bi + (bi - m % bi)) by (nonlinear_arith)
                requires
                    m == bi * (m / bi) + m % bi,
                    a as int == -m,
            ;
            vstd::arithmetic::div_mod::lemma_fundamental_div_mod_converse(
                a as int,
                bi,
                -(m / bi) - 1,
                bi - m % bi,
            );
        }
        t - 1
    } else {
        if a < 0 {
            proof {
                let m = -(a as int);
                let bi = b as int;
                vstd::arithmetic::div_mod::lemma_fundamental_div_mod(m, bi);
                assert(a as int == (-(m / bi)) * bi + 0) by (nonlinear_arith)
                    requires
                        m == bi * (m / bi) + m % bi,
                        m % bi == 0,
                        a as int == -m,
                ;
                vstd::arithmetic::div_mod::lemma_fundamental_div_mod_converse(
                    a as int,
                    bi,
                    -(m / bi),
                    0,
                );
            }
        }
        t
    }
}

// --- The shape of a decimal text -------------------------------------------
//
// A number text is ASCII: an optional minus sign, one or more digits, and
// optionally a dot followed by one or more fraction digits.  Exponent forms
// are not part of the shape and are rejected.

/// Byte value of the minus sign.
pub open spec fn minus_byte() -> u8 {
    45
}

/// Byte value of the decimal dot.
pub open spec fn dot_byte() -> u8 {
    46
}

/// Whether `b` is an ASCII decimal digit.
pub open spec fn is_digit(b: u8) -> bool {
    48 <= b && b <= 57
}

/// Numeric value of a digit byte.
pub open spec fn digit_val(b: u8) -> int {
    b - 48
}

/// Whether every byte of `s` is a digit.
pub open spec fn all_digits(s: Seq<u8>) -> bool {
    forall|i: int| 0 <= i < s.len() ==> is_digit(#[trigger] s[i])
}

/// Value of a digit string, most significant digit first.
pub open spec fn digits_val(s: Seq<u8>) -> int
    decreases s.len(),
{
    if s.len() == 0 {
        0
    } else {
        digits_val(s.drop_last()) * 10 + digit_val(s.last())
    }
}

/// Ten to the `k`.
pub open spec fn pow10(k: nat) -> int
    decreases k,
{
    if k == 0 {
        1
    } else {
        10 * pow10((k - 1) as nat)
    }
}

/// Whether position `k` splits the unsigned text `s` into a nonempty integer
/// digit part, a dot, and a nonempty fraction digit part.
pub open spec fn valid_split(s: Seq<u8>, k: int) -> bool {
    &&& 1 <= k <= s.len() - 2
    &&& s[k] == dot_byte()
    &&& all_digits(s.take(k))
    &&& all_digits(s.skip(k + 1))
}

/// Thousandths contributed by the fraction digits `f`: the first three
/// digits, right-padded with zeros; further digits are truncated away.
pub open spec fn frac_milli(f: Seq<u8>) -> int {
    if f.len() >= 3 {
        digits_val(f.take(3))
    } else {
        digits_val(f) * pow10((3 - f.len()) as nat)
    }
}

/// Magnitude, in thousandths, of the unsigned decimal text `s`; `None` when
/// `s` is not of the required shape.
pub open spec fn spec_unsigned_milli(s: Seq<u8>) -> Option<int> {
    if exists|k: int| valid_split(s, k) {
        let k = choose|k: int| valid_split(s, k);
        Some(digits_val(s.take(k)) * 1000 + frac_milli(s.skip(k + 1)))
    } else if s.len() > 0 && all_digits(s) {
        Some(digits_val(s) * 1000)
    } else {
        None
    }
}

/// Whether the text `s` carries a minus sign.
pub open spec fn has_minus(s: Seq<u8>) -> bool {
    s.len() > 0 && s[0] == minus_byte()
}

/// The unsigned remainder of `s` after an optional minus sign.
pub open spec fn unsigned_part(s: Seq<u8>) -> Seq<u8> {
    if has_minus(s) {
        s.drop_first()
    } else {
        s
    }
}

/// Meaning of a decimal text as a temperature in thousandths: `Some(v)` when
/// `s` is a well-formed decimal whose value in thousandths, truncated toward
/// zero after the third fraction digit, has magnitude at most `i64::MAX`.
pub open spec fn spec_parse_milli(s: Seq<u8>) -> Option<int> {
    match spec_unsigned_milli(unsigned_part(s)) {
        Some(m) => if m <= i64::MAX {
            Some(if has_minus(s) { -m } else { m })
        } else {
            None
        },
        None => None,
    }
}

/// Meaning of an integer text: `Some(v)` when `s` is an optional minus sign
/// followed by digits only and the magnitude is at most `i64::MAX`.
pub open spec fn spec_parse_i64(s: Seq<u8>) -> Option<int> {
    let u = unsigned_part(s);
    if u.len() > 0 && all_digits(u) && digits_val(u) <= i64::MAX {
        Some(if has_minus(s) { -digits_val(u) } else { digits_val(u) })
    } else {
        None
    }
}

/// A digit string has a nonnegative value.
pub proof fn lemma_digits_val_nonneg(s: Seq<u8>)
    requires
        all_digits(s),
    ensures
        digits_val(s) >= 0,
    decreases s.len(),
{
    if s.len() > 0 {
        assert(all_digits(s.drop_last()));
        lemma_digits_val_nonneg(s.drop_last());
    }
}

/// Extending a digit string can only grow its value.
pub proof fn lemma_digits_val_prefix_le(s: Seq<u8>, k: int)
    requires
        all_digits(s),
        0 <= k <= s.len(),
    ensures
        digits_val(s.take(k)) <= digits_val(s),
    decreases s.len(),
{
    if k == s.len() {
        assert(s.take(k) =~= s);
    } else {
        assert(all_digits(s.drop_last()));
        assert(s.drop_last().take(k) =~= s.take(k));
        lemma_digits_val_prefix_le(s.drop_last(), k);
        lemma_digits_val_nonneg(s.drop_last());
    }
}

/// Reads an integer text: an optional minus sign followed by decimal digits.
/// Returns the value exactly when the text is well formed and the magnitude
/// fits; see [`spec_parse_i64`].
pub fn parse_i64(s: &[u8]) -> (r: Option<i64>)
    ensures
        match spec_parse_i64(s@) {
            Some(v) => r matches Some(x) && x as int == v,
            None => r is None,
        },
{
    let n = s.len();
    let neg = n > 0 && s[0] == 45u8;
    let start: usize = if neg {
        1
    } else {
        0
    };
    let ghost u = unsigned_part(s@);
    proof {
        assert(u =~= s@.subrange(start as int, n as int));
    }
    if start == n {
        return None;
    }
    let mut acc: u128 = 0;
    let mut i: usize = start;
    while i < n
        invariant
            start <= i <= n,
            n == s@.len(),
            u == unsigned_part(s@),
            u == s@.subrange(start as int, n as int),
            all_digits(u.take(i - start)),
            acc == digits_val(u.take(i - start)),
            acc <= i64::MAX as u128,
        decreases n - i,
    {
        let b = s[i];
        if b < 48 || b > 57 {
            proof {
                lemma_int_text_bad_byte(u, i - start);
            }
            return None;
        }
        proof {
            assert(u.take(i - start + 1).drop_last() =~= u.take(i - start));
            assert(u.take(i - start + 1).last() == s@[i as int]);
        }
        acc = acc * 10 + ((b - 48) as u128);
        i = i + 1;
        if acc > i64::MAX as u128 {
            proof {
                lemma_int_text_overflow(u, i - start);
            }
            return None;
        }
    }
    proof {
        assert(u.take(n - start) =~= u);
    }
    if neg {
        Some(-(acc as i64))
    } else {
        Some(acc as i64)
    }
}

/// If some byte of the unsigned text is not a digit, the text means nothing
/// as an integer.
proof fn lemma_int_text_bad_byte(u: Seq<u8>, p: int)
    requires
        0 <= p < u.len(),
        !is_digit(u[p]),
    ensures
        !(u.len() > 0 && all_digits(u) && digits_val(u) <= i64::MAX),
{
}

/// If a digit prefix of the unsigned text already exceeds `i64::MAX`, the
/// whole text cannot mean an integer in range.
proof fn lemma_int_text_overflow(u: Seq<u8>, p: int)
    requires
        0 <= p <= u.len(),
        all_digits(u.take(p)),
        digits_val(u.take(p)) > i64::MAX,
    ensures
        !(u.len() > 0 && all_digits(u) && digits_val(u) <= i64::MAX),
{
    if all_digits(u) {
        lemma_digits_val_prefix_le(u, p);
    }
}

/// Ten to the `k` is positive.
proof fn lemma_pow10_pos(k: nat)
    ensures
        pow10(k) >= 1,
    decreases k,
{
    if k > 0 {
        lemma_pow10_pos((k - 1) as nat);
    }
}

/// The fraction contribution of a digit string is nonnegative.
proof fn lemma_frac_milli_bounds(f: Seq<u8>)
    requires
        all_digits(f),
    ensures
        0 <= frac_milli(f),
{
    if f.len() >= 3 {
        assert(all_digits(f.take(3)));
        lemma_digits_val_nonneg(f.take(3));
    } else {
        lemma_digits_val_nonneg(f);
        lemma_pow10_pos((3 - f.len()) as nat);
        vstd::arithmetic::mul::lemma_mul_nonnegative(digits_val(f), pow10((3 - f.len()) as nat));
    }
}

/// A string of `k` digits has a value below ten to the `k`.
proof fn lemma_digits_val_upper(s: Seq<u8>)
    requires
        all_digits(s),
    ensures
        digits_val(s) < pow10(s.len() as nat),
    decreases s.len(),
{
    if s.len() > 0 {
        assert(all_digits(s.drop_last()));
        lemma_digits_val_upper(s.drop_last());
    }
}

/// Once a dot stands after a digit prefix, no other position can split the
/// text.
proof fn lemma_split_is_dot(u: Seq<u8>, d: int)
    requires
        0 <= d < u.len(),
        all_digits(u.take(d)),
        u[d] == dot_byte(),
    ensures
        forall|k: int| valid_split(u, k) ==> k == d,
{
    assert forall|k: int| valid_split(u, k) implies k == d by {
        if k < d {
            assert(u.take(d)[k] == u[k]);
        }
        if k > d {
            assert(u.take(k)[d] == u[d]);
        }
    }
}

/// A non-digit byte other than the dot, standing after a digit prefix, rules
/// every decimal reading out.
proof fn lemma_milli_bad_byte(u: Seq<u8>, p: int)
    requires
        0 <= p < u.len(),
        all_digits(u.take(p)),
        !is_digit(u[p]),
        u[p] != dot_byte(),
    ensures
        spec_unsigned_milli(u) is None,
{
    assert forall|k: int| !valid_split(u, k) by {
        if valid_split(u, k) {
            if k < p {
                assert(u.take(p)[k] == u[k]);
            }
            if k == p {
            }
            if k > p {
                assert(u.take(k)[p] == u[p]);
            }
        }
    }
}

/// A digit prefix whose value already exceeds the cap keeps every decimal
/// reading of the whole text above `i64::MAX`.
proof fn lemma_milli_overflow(u: Seq<u8>, p: int)
    requires
        0 <= p <= u.len(),
        all_digits(u.take(p)),
        digits_val(u.take(p)) > i64::MAX as int / 1000,
    ensures
        match spec_unsigned_milli(u) {
            Some(m) => m > i64::MAX,
            None => true,
        },
{
    let cap = i64::MAX as int / 1000;
    if exists|k: int| valid_split(u, k) {
        let k = choose|k: int| valid_split(u, k);
        assert(p <= k) by {
            if k < p {
                assert(u.take(p)[k] == u[k]);
            }
        }
        assert(u.take(k).take(p) =~= u.take(p));
        lemma_digits_val_prefix_le(u.take(k), p);
        lemma_frac_milli_bounds(u.skip(k + 1));
        assert(digits_val(u.take(k)) * 1000 >= (cap + 1) * 1000) by (nonlinear_arith)
            requires
                digits_val(u.take(k)) >= cap + 1,
        ;
    } else if u.len() > 0 && all_digits(u) {
        lemma_digits_val_prefix_le(u, p);
        assert(digits_val(u) * 1000 >= (cap + 1) * 1000) by (nonlinear_arith)
            requires
                digits_val(u) >= cap + 1,
        ;
    }
}

/// Reads a decimal text into thousandths, truncating toward zero after the
/// third fraction digit; see [`spec_parse_milli`].
pub fn parse_milli(s: &[u8]) -> (r: Option<i64>)
    ensures
        match spec_parse_milli(s@) {
            Some(v) => r matches Some(x) && x as int == v,
            None => r is None,
        },
{
    let n = s.len();
    let neg = n > 0 && s[0] == 45u8;
    let start: usize = if neg {
        1
    } else {
        0
    };
    let ghost u = unsigned_part(s@);
    proof {
        assert(u =~= s@.subrange(start as int, n as int));
    }
    if start == n {
        return None;
    }
    let mut acc: u128 = 0;
    let mut i: usize = start;
    while i < n && s[i] != 46u8
        invariant
            start <= i <= n,
            n == s@.len(),
            start < n,
            u == unsigned_part(s@),
            u == s@.subrange(start as int, n as int),
            all_digits(u.take(i - start)),
            acc == digits_val(u.take(i - start)),
            acc <= i64::MAX as u128 / 1000,
        decreases n - i,
    {
        let b = s[i];
        if b < 48 || b > 57 {
            proof {
                lemma_milli_bad_byte(u, i - start);
            }
            return None;
        }
        proof {
            assert(u.take(i - start + 1).drop_last() =~= u.take(i - start));
            assert(u.take(i - start + 1).last() == s@[i as int]);
        }
        acc = acc * 10 + ((b - 48) as u128);
        i = i + 1;
        if acc > 9223372036854775u128 {
            proof {
                assert(9223372036854775int == i64::MAX as int / 1000);
                lemma_milli_overflow(u, i - start);
            }
            return None;
        }
    }
    if i == n {
        // Integer form: all of `u` is digits.
        proof {
            assert(u.take(n - start) =~= u);
            assert(forall|k: int| !valid_split(u, k));
            assert(acc * 1000 <= (i64::MAX as u128 / 1000) * 1000);
        }
        let m = acc * 1000;
        if neg {
            return Some(-(m as i64));
        } else {
            return Some(m as i64);
        }
    }
    // A dot: `u[i - start]` is the split position.
    let ghost d = i - start;
    proof {
        lemma_split_is_dot(u, d);
    }
    if i == start {
        // Leading dot: no digits before it.
        return None;
    }
    let fstart = i + 1;
    let ghost f = u.skip(d + 1);
    proof {
        assert(f =~= s@.subrange(fstart as int, n as int));
    }
    if fstart == n {
        // Trailing dot: no fraction digits after it.
        return None;
    }
    let mut fv: u64 = 0;
    let mut fcnt: u64 = 0;
    let mut j: usize = fstart;
    while j < n
        invariant
            fstart <= j <= n,
            fstart <= n,
            n == s@.len(),
            start < n,
            u == unsigned_part(s@),
            u == s@.subrange(start as int, n as int),
            d == fstart - 1 - start,
            1 <= d < u.len(),
            all_digits(u.take(d)),
            u[d] == dot_byte(),
            f == u.skip(d + 1),
            f == s@.subrange(fstart as int, n as int),
            f.len() == n - fstart,
            all_digits(f.take(j - fstart)),
            fcnt == if j - fstart <= 3 {
                j - fstart
            } else {
                3int
            },
            fv == digits_val(f.take(fcnt as int)),
            fv < 1000,
        decreases n - j,
    {
        let b = s[j];
        if b < 48 || b > 57 {
            proof {
                lemma_bad_frac_byte(u, d, j - fstart);
            }
            return None;
        }
        proof {
            assert(f.take(j - fstart + 1).drop_last() =~= f.take(j - fstart));
            assert(f.take(j - fstart + 1).last() == s@[j as int]);
            if fcnt < 3 {
                lemma_digits_val_upper(f.take(fcnt as int));
                assert(pow10(2) == 100 && pow10(1) == 10) by {
                    reveal_with_fuel(pow10, 3);
                }
            }
        }
        if fcnt < 3 {
            fv = fv * 10 + ((b - 48) as u64);
            fcnt = fcnt + 1;
        }
        j = j + 1;
    }
    // Pad short fractions with zeros up to thousandths.
    proof {
        assert(f.take(n - fstart) =~= f);
    }
    if fcnt == 1 {
        fv = fv * 100;
    } else if fcnt == 2 {
        fv = fv * 10;
    }
    proof {
        lemma_pad_is_frac_milli(f, fv as int, fcnt as int);
    }
    let m = acc * 1000 + (fv as u128);
    proof {
        assert(valid_split(u, d));
        let k = choose|k: int| valid_split(u, k);
        assert(k == d);
        assert(u.take(d) =~= u.take(i - start));
    }
    if m > i64::MAX as u128 {
        return None;
    }
    if neg {
        Some(-(m as i64))
    } else {
        Some(m as i64)
    }
}

/// A non-digit among the fraction bytes rules every decimal reading out.
proof fn lemma_bad_frac_byte(u: Seq<u8>, d: int, t: int)
    requires
        0 <= d < u.len(),
        all_digits(u.take(d)),
        u[d] == dot_byte(),
        0 <= t < u.skip(d + 1).len(),
        !is_digit(u.skip(d + 1)[t]),
    ensures
        spec_unsigned_milli(u) is None,
{
    lemma_split_is_dot(u, d);
    assert(!valid_split(u, d));
}

/// Padding the first fraction digits with zeros yields exactly the
/// thousandths contribution of the whole fraction.
proof fn lemma_pad_is_frac_milli(f: Seq<u8>, padded: int, cnt: int)
    requires
        f.len() > 0,
        all_digits(f),
        cnt == if f.len() <= 3 {
            f.len() as int
        } else {
            3int
        },
        padded == if cnt == 1 {
            digits_val(f.take(1)) * 100
        } else if cnt == 2 {
            digits_val(f.take(2)) * 10
        } else {
            digits_val(f.take(3))
        },
    ensures
        padded == frac_milli(f),
{
    if f.len() == 1 {
        assert(f.take(1) =~= f);
        assert(pow10(2) == 100) by {
            reveal_with_fuel(pow10, 4);
        }
    } else if f.len() == 2 {
        assert(f.take(2) =~= f);
        assert(pow10(1) == 10) by {
            reveal_with_fuel(pow10, 4);
        }
    } else if f.len() == 3 {
        assert(f.take(3) =~= f);
        assert(pow10(0) == 1) by {
            reveal_with_fuel(pow10, 4);
        }
    }
}

} // verus!
