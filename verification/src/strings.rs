//! Text building.
//!
//! The provider clients assemble their request paths out of string pieces and
//! decimal renderings of numbers.  Everything here is exact: a built string is
//! specified character for character.

use vstd::prelude::*;

verus! {

/// Relies on std's `String::push_str`: appends the characters of `other` to `s`.
pub assume_specification[ String::push_str ](s: &mut String, other: &str)
    ensures
        final(s)@ == old(s)@ + other@,
;

/// Relies on std's `String::push`: appends the single character `c` to `s`.
pub assume_specification[ String::push ](s: &mut String, c: char)
    ensures
        final(s)@ == old(s)@ + seq![c],
;

/// The character for a single decimal digit.
pub open spec fn spec_digit_char(d: int) -> char {
    if d == 0 {
        '0'
    } else if d == 1 {
        '1'
    } else if d == 2 {
        '2'
    } else if d == 3 {
        '3'
    } else if d == 4 {
        '4'
    } else if d == 5 {
        '5'
    } else if d == 6 {
        '6'
    } else if d == 7 {
        '7'
    } else if d == 8 {
        '8'
    } else {
        '9'
    }
}

/// The decimal rendering of a nonnegative integer, most significant digit
/// first, without leading zeros (except for `0` itself).
pub open spec fn spec_decimal(n: int) -> Seq<char>
    decreases n,
{
    if n < 10 {
        seq![spec_digit_char(n)]
    } else {
        spec_decimal(n / 10) + seq![spec_digit_char(n % 10)]
    }
}

fn digit_char(d: u64) -> (c: char)
    requires
        d < 10,
    ensures
        c == spec_digit_char(d as int),
{
    match d {
        0 => '0',
        1 => '1',
        2 => '2',
        3 => '3',
        4 => '4',
        5 => '5',
        6 => '6',
        7 => '7',
        8 => '8',
        _ => '9',
    }
}

/// The decimal text of `n`.
pub fn u64_to_string(n: u64) -> (s: String)
    ensures
        s@ == spec_decimal(n as int),
    decreases n,
{
    if n < 10 {
        let mut s = String::new();
        s.push(digit_char(n));
        proof {
            assert(s@ =~= spec_decimal(n as int));
        }
        s
    } else {
        let mut s = u64_to_string(n / 10);
        s.push(digit_char(n % 10));
        proof {
            assert(n as int / 10 == n / 10);
            assert(n as int % 10 == n % 10);
            assert(s@ =~= spec_decimal(n as int));
        }
        s
    }
}

/// The characters that a run of ASCII bytes spells.
pub open spec fn chars_of_ascii(s: Seq<u8>) -> Seq<char> {
    s.map_values(|b: u8| b as char)
}

/// The string spelled by a run of ASCII bytes.
pub fn ascii_string(v: &[u8]) -> (s: String)
    requires
        forall|i: int| 0 <= i < v@.len() ==> v@[i] < 128,
    ensures
        s@ == chars_of_ascii(v@),
{
    let n = v.len();
    let mut s = String::new();
    let mut i: usize = 0;
    proof {
        assert(chars_of_ascii(v@.take(0)) =~= Seq::<char>::empty());
    }
    while i < n
        invariant
            0 <= i <= n,
            n == v@.len(),
            forall|k: int| 0 <= k < v@.len() ==> v@[k] < 128,
            s@ == chars_of_ascii(v@.take(i as int)),
        decreases n - i,
    {
        s.push(v[i] as char);
        i = i + 1;
        proof {
            assert(chars_of_ascii(v@.take(i as int)) =~= chars_of_ascii(
                v@.take(i - 1),
            ).push(v@[i - 1] as char));
        }
    }
    proof {
        assert(v@.take(n as int) =~= v@);
    }
    s
}

} // verus!
