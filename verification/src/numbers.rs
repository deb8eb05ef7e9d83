//! Decimal reading and writing for the metric value.
//!
//! The metric `value` query parameter is an unsigned 8-bit integer written in
//! decimal digits; the response body writes it back without leading zeros.

use vstd::prelude::*;
use vstd::string::*;

verus! {

/// A decimal digit character.
pub open spec fn is_digit(c: char) -> bool {
    '0' <= c && c <= '9'
}

/// Numeric value of a digit character.
pub open spec fn digit_val(c: char) -> nat {
    if is_digit(c) {
        (c as u32 - '0' as u32) as nat
    } else {
        0
    }
}

/// Every character of `s` is a decimal digit.
pub open spec fn all_digits(s: Seq<char>) -> bool {
    forall|i: int| 0 <= i < s.len() ==> is_digit(s[i])
}

/// Numeric value of a digit string, most significant digit first.
pub open spec fn dec_val(s: Seq<char>) -> nat
    decreases s.len(),
{
    if s.len() == 0 {
        0
    } else {
        dec_val(s.drop_last()) * 10 + digit_val(s.last())
    }
}

/// `s` is a decimal numeral an unsigned 8-bit integer can hold: at least one
/// character, digits only, value at most 255.
pub open spec fn parses_to_u8(s: Seq<char>) -> bool {
    s.len() > 0 && all_digits(s) && dec_val(s) <= 255
}

/// A longer digit string never has a smaller value than its prefix.
proof fn lemma_dec_val_prefix(s: Seq<char>, j: int)
    requires
        0 <= j <= s.len(),
    ensures
        dec_val(s) >= dec_val(s.take(j)),
    decreases s.len() - j,
{
    if j == s.len() {
        assert(s.take(j) =~= s);
    } else {
        lemma_dec_val_prefix(s, j + 1);
        assert(s.take(j + 1).drop_last() =~= s.take(j));
        assert(dec_val(s.take(j + 1)) == dec_val(s.take(j)) * 10 + digit_val(s.take(j + 1).last()));
    }
}

/// Reads `s` as a decimal `u8`. Returns the value exactly when `s` is one or
/// more decimal digits whose value fits in eight bits, and nothing otherwise.
pub fn parse_u8_str(s: &str) -> (r: Option<u8>)
    ensures
        parses_to_u8(s@) ==> r == Some((dec_val(s@) as u8)),
        !parses_to_u8(s@) ==> r is None,
{
    let n = s.unicode_len();
    if n == 0 {
        return None;
    }
    let mut acc: u16 = 0;
    let mut i: usize = 0;
    while i < n
        invariant
            n == s@.len(),
            0 <= i <= n,
            all_digits(s@.take(i as int)),
            acc == dec_val(s@.take(i as int)),
            acc <= 255,
        decreases n - i,
    {
        let c = s.get_char(i);
        if c < '0' || c > '9' {
            proof {
                assert(!is_digit(s@[i as int]));
            }
            return None;
        }
        let d: u16 = (c as u32 - '0' as u32) as u16;
        proof {
            assert(s@.take(i + 1).drop_last() =~= s@.take(i as int));
            assert(s@.take(i + 1).last() == s@[i as int]);
        }
        let next: u16 = acc * 10 + d;
        if next > 255 {
            proof {
                lemma_dec_val_prefix(s@, i + 1);
            }
            return None;
        }
        acc = next;
        i += 1;
    }
    proof {
        assert(s@.take(n as int) =~= s@);
    }
    Some(acc as u8)
}

/// Digit character of a value below ten.
pub open spec fn digit_char(d: nat) -> char {
    if d == 0 {
        '0'
    } else if d == 1 {
        '1'
    } else if d == 2 {
        '2'
    } else if d == 3 {
        '3'
    } else if d == 4 {
        '4'
    } else if d == 5 {
        '5'
    } else if d == 6 {
        '6'
    } else if d == 7 {
        '7'
    } else if d == 8 {
        '8'
    } else {
        '9'
    }
}

/// Decimal numeral of `n`, most significant digit first, without leading
/// zeros.
pub open spec fn dec_str(n: nat) -> Seq<char>
    decreases n,
{
    if n < 10 {
        seq![digit_char(n)]
    } else {
        dec_str(n / 10) + seq![digit_char(n % 10)]
    }
}

fn digit_str(d: u8) -> (r: &'static str)
    requires
        d < 10,
    ensures
        r@ == seq![digit_char(d as nat)],
{
    proof {
        reveal_strlit("0");
        reveal_strlit("1");
        reveal_strlit("2");
        reveal_strlit("3");
        reveal_strlit("4");
        reveal_strlit("5");
        reveal_strlit("6");
        reveal_strlit("7");
        reveal_strlit("8");
        reveal_strlit("9");
    }
    let r = if d == 0 {
        "0"
    } else if d == 1 {
        "1"
    } else if d == 2 {
        "2"
    } else if d == 3 {
        "3"
    } else if d == 4 {
        "4"
    } else if d == 5 {
        "5"
    } else if d == 6 {
        "6"
    } else if d == 7 {
        "7"
    } else if d == 8 {
        "8"
    } else {
        "9"
    };
    proof {
        assert(r@ =~= seq![digit_char(d as nat)]);
    }
    r
}

/// Writes `v` as its decimal numeral.
pub fn u8_to_string(v: u8) -> (s: String)
    ensures
        s@ == dec_str(v as nat),
{
    let mut s = String::new();
    if v >= 100 {
        s.append(digit_str(v / 100));
        s.append(digit_str((v / 10) % 10));
        s.append(digit_str(v % 10));
        proof {
            vstd::arithmetic::div_mod::lemma_div_denominator(v as int, 10, 10);
            reveal_with_fuel(dec_str, 4);
            assert(10 <= v as nat / 10 < 26) by (nonlinear_arith)
                requires 100 <= v < 256int,
            ;
            assert(v as nat / 100 < 10) by (nonlinear_arith)
                requires v < 256int,
            ;
            assert(v as nat / 10 / 10 == v as nat / 100);
            assert(dec_str(v as nat) == dec_str(v as nat / 10) + seq![digit_char(v as nat % 10)]);
            assert(dec_str(v as nat / 10) == dec_str(v as nat / 100) + seq![
                digit_char((v as nat / 10) % 10),
            ]);
            assert(dec_str(v as nat / 100) == seq![digit_char(v as nat / 100)]);
            assert(s@ =~= dec_str(v as nat));
        }
    } else if v >= 10 {
        s.append(digit_str(v / 10));
        s.append(digit_str(v % 10));
        proof {
            reveal_with_fuel(dec_str, 3);
            assert(v as nat / 10 < 10) by (nonlinear_arith)
                requires v < 100int,
            ;
            assert(dec_str(v as nat) == dec_str(v as nat / 10) + seq![digit_char(v as nat % 10)]);
            assert(dec_str(v as nat / 10) == seq![digit_char(v as nat / 10)]);
            assert(s@ =~= dec_str(v as nat));
        }
    } else {
        s.append(digit_str(v));
        proof {
            assert(s@ =~= dec_str(v as nat));
        }
    }
    s
}

} // verus!
