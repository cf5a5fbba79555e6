//! Numbers as text: writing integers in decimal and hexadecimal, and reading
//! decimal numbers with a fraction.
//!
//! Real-valued quantities are held as integers in thousandths of their unit
//! throughout the crate (milliseconds for seconds, thousandths of a frame per
//! second for frame rates), so a decimal number with a fraction is read into
//! thousandths and written back from them.

use crate::scan::{find_byte, first_index_of};
use vstd::prelude::*;
use vstd::string::StringExecFns;

verus! {

/// The lower-case character for the digit `d` (up to fifteen).
pub open spec fn digit_char(d: nat) -> char {
    if d == 0 {
        '0'
    } else if d == 1 {
        '1'
    } else if d == 2 {
        '2'
    } else if d == 3 {
        '3'
    } else if d == 4 {
        '4'
    } else if d == 5 {
        '5'
    } else if d == 6 {
        '6'
    } else if d == 7 {
        '7'
    } else if d == 8 {
        '8'
    } else if d == 9 {
        '9'
    } else if d == 10 {
        'a'
    } else if d == 11 {
        'b'
    } else if d == 12 {
        'c'
    } else if d == 13 {
        'd'
    } else if d == 14 {
        'e'
    } else {
        'f'
    }
}

/// The digits of `n` in the given base, most significant first, without
/// leading zeros; zero is written as a single `0`.
pub open spec fn radix_digits(n: nat, base: nat) -> Seq<char>
    decreases n,
{
    if base < 2 || n < base {
        seq![digit_char(n)]
    } else {
        proof {
            assert(n / base < n) by (nonlinear_arith)
                requires
                    n >= base,
                    base >= 2,
            ;
        }
        radix_digits(n / base, base).push(digit_char(n % base))
    }
}

/// `n` in decimal.
pub open spec fn decimal_digits(n: nat) -> Seq<char> {
    radix_digits(n, 10)
}

/// `n` in lower-case hexadecimal.
pub open spec fn hex_digits(n: nat) -> Seq<char> {
    radix_digits(n, 16)
}

/// The digits after the decimal point for `frac` thousandths, where
/// `0 < frac < 1000`: three places with the trailing zeros left out.
pub open spec fn fraction_digits(frac: nat) -> Seq<char> {
    if frac % 100 == 0 {
        seq![digit_char(frac / 100)]
    } else if frac % 10 == 0 {
        seq![digit_char(frac / 100), digit_char((frac / 10) % 10)]
    } else {
        seq![digit_char(frac / 100), digit_char((frac / 10) % 10), digit_char(frac % 10)]
    }
}

/// `n` thousandths as a decimal number: the whole part, and a point with the
/// fraction only where the fraction is not zero.
pub open spec fn thousandths_text(n: nat) -> Seq<char> {
    if n % 1000 == 0 {
        decimal_digits(n / 1000)
    } else {
        decimal_digits(n / 1000) + seq!['.'] + fraction_digits(n % 1000)
    }
}

/// The one-character text for the digit `d`.
fn digit_str(d: u8) -> (s: &'static str)
    requires
        d < 16,
    ensures
        s@ == seq![digit_char(d as nat)],
{
    proof {
        reveal_strlit("0");
        reveal_strlit("1");
        reveal_strlit("2");
        reveal_strlit("3");
        reveal_strlit("4");
        reveal_strlit("5");
        reveal_strlit("6");
        reveal_strlit("7");
        reveal_strlit("8");
        reveal_strlit("9");
        reveal_strlit("a");
        reveal_strlit("b");
        reveal_strlit("c");
        reveal_strlit("d");
        reveal_strlit("e");
        reveal_strlit("f");
    }
    let s: &'static str = match d {
        0 => "0",
        1 => "1",
        2 => "2",
        3 => "3",
        4 => "4",
        5 => "5",
        6 => "6",
        7 => "7",
        8 => "8",
        9 => "9",
        10 => "a",
        11 => "b",
        12 => "c",
        13 => "d",
        14 => "e",
        _ => "f",
    };
    s
}

/// Appends the digits of `n` in the given base to `out`.
pub fn append_radix(out: &mut String, n: u64, base: u64)
    requires
        2 <= base <= 16,
    ensures
        final(out)@ == old(out)@ + radix_digits(n as nat, base as nat),
    decreases n,
{
    if n >= base {
        assert(n / base < n) by (nonlinear_arith)
            requires
                n >= base,
                base >= 2,
        ;
        append_radix(out, n / base, base);
    }
    let d: u8 = (n % base) as u8;
    out.append(digit_str(d));
    proof {
        if n < base {
            assert(n % base == n) by (nonlinear_arith)
                requires
                    n < base,
            ;
        }
    }
}

/// Writes `n` in decimal.
pub fn decimal_string(n: u64) -> (s: String)
    ensures
        s@ == decimal_digits(n as nat),
{
    let mut s = String::new();
    append_radix(&mut s, n, 10);
    s
}

/// Writes `n` in lower-case hexadecimal.
pub fn hex_string(n: u64) -> (s: String)
    ensures
        s@ == hex_digits(n as nat),
{
    let mut s = String::new();
    append_radix(&mut s, n, 16);
    s
}

/// Writes `n` thousandths as a decimal number.
pub fn thousandths_string(n: u32) -> (s: String)
    ensures
        s@ == thousandths_text(n as nat),
{
    let whole: u32 = n / 1000;
    let frac: u32 = n % 1000;
    let mut s = decimal_string(whole as u64);
    if frac != 0 {
        proof {
            reveal_strlit(".");
        }
        s.append(".");
        s.append(digit_str((frac / 100) as u8));
        if frac % 100 != 0 {
            s.append(digit_str(((frac / 10) % 10) as u8));
            if frac % 10 != 0 {
                s.append(digit_str((frac % 10) as u8));
            }
        }
    }
    s
}

/// `b` is an ASCII decimal digit.
pub open spec fn is_digit(b: u8) -> bool {
    48 <= b && b <= 57
}

/// Every byte of `s` is a decimal digit.
pub open spec fn all_digits(s: Seq<u8>) -> bool {
    forall|i: int| 0 <= i < s.len() ==> is_digit(#[trigger] s[i])
}

/// The number that the decimal digits `s` write; zero for no digits.
pub open spec fn digits_value(s: Seq<u8>) -> nat
    decreases s.len(),
{
    if s.len() == 0 {
        0
    } else {
        digits_value(s.drop_last()) * 10 + (s.last() - 48) as nat
    }
}

/// The digit at place `i` of `s`, or zero past its end.
pub open spec fn digit_at(s: Seq<u8>, i: int) -> nat {
    if 0 <= i < s.len() {
        (s[i] - 48) as nat
    } else {
        0
    }
}

/// The thousandths that the digits `s` after a decimal point stand for;
/// places past the third are dropped.
pub open spec fn fraction_value(s: Seq<u8>) -> nat {
    digit_at(s, 0) * 100 + digit_at(s, 1) * 10 + digit_at(s, 2)
}

/// `s` is a decimal number: one or more digits, then optionally a point
/// followed by any number of digits. No sign, no exponent, no white space.
pub open spec fn is_decimal_text(s: Seq<u8>) -> bool {
    match first_index_of(s, 46) {
        None => s.len() > 0 && all_digits(s),
        Some(p) => p > 0 && all_digits(s.take(p)) && all_digits(s.skip(p + 1)),
    }
}

/// The value of `s` in thousandths where `s` is a decimal number, and zero
/// where it is not.
pub open spec fn thousandths_value(s: Seq<u8>) -> nat {
    if is_decimal_text(s) {
        match first_index_of(s, 46) {
            None => digits_value(s) * 1000,
            Some(p) => digits_value(s.take(p)) * 1000 + fraction_value(s.skip(p + 1)),
        }
    } else {
        0
    }
}

/// `n`, or the largest `u64` where `n` is beyond it.
pub open spec fn clamp_u64(n: nat) -> u64 {
    if n > u64::MAX {
        u64::MAX
    } else {
        n as u64
    }
}

/// Reads the decimal digits `s[from..to]`. `None` where a byte is no digit;
/// otherwise the value, held at the largest `u64` where it is beyond it.
pub fn read_digits(s: &[u8], from: usize, to: usize) -> (r: Option<u64>)
    requires
        from <= to <= s@.len(),
    ensures
        match r {
            Some(v) => all_digits(s@.subrange(from as int, to as int)) && v == clamp_u64(
                digits_value(s@.subrange(from as int, to as int)),
            ),
            None => !all_digits(s@.subrange(from as int, to as int)),
        },
{
    let ghost part = s@.subrange(from as int, to as int);
    let mut acc: u64 = 0;
    let mut i: usize = from;
    while i < to
        invariant
            from <= i <= to <= s@.len(),
            part == s@.subrange(from as int, to as int),
            all_digits(part.take(i - from)),
            acc == clamp_u64(digits_value(part.take(i - from))),
        decreases to - i,
    {
        let b: u8 = s[i];
        proof {
            assert(part[i - from] == b);
        }
        if b < 48 || b > 57 {
            return None;
        }
        let wide: u128 = (acc as u128) * 10 + ((b - 48) as u128);
        proof {
            let before = part.take(i - from);
            let after = part.take(i + 1 - from);
            assert(after.drop_last() =~= before);
        }
        acc = if wide > u64::MAX as u128 {
            u64::MAX
        } else {
            wide as u64
        };
        i += 1;
    }
    proof {
        assert(part.take(to - from) =~= part);
    }
    Some(acc)
}

/// Reads a decimal number into thousandths. Text that is no decimal number
/// reads as zero; a value beyond the largest `u64` reads as the largest `u64`.
pub fn parse_thousandths(s: &[u8]) -> (r: u64)
    ensures
        r == clamp_u64(thousandths_value(s@)),
{
    let n: usize = s.len();
    match find_byte(s, 46) {
        None => {
            proof {
                assert(s@.subrange(0, n as int) =~= s@);
            }
            if n == 0 {
                return 0;
            }
            match read_digits(s, 0, n) {
                None => 0,
                Some(whole) => {
                    let wide: u128 = (whole as u128) * 1000;
                    if wide > u64::MAX as u128 {
                        u64::MAX
                    } else {
                        wide as u64
                    }
                },
            }
        },
        Some(p) => {
            if p == 0 {
                return 0;
            }
            let whole: u64 = match read_digits(s, 0, p) {
                None => {
                    return 0;
                },
                Some(w) => w,
            };
            match read_digits(s, p + 1, n) {
                None => 0,
                Some(_) => {
                    let mut thousandths: u128 = 0;
                    if n - p > 1 {
                        thousandths = thousandths + ((s[p + 1] - 48) as u128) * 100;
                    }
                    if n - p > 2 {
                        thousandths = thousandths + ((s[p + 2] - 48) as u128) * 10;
                    }
                    if n - p > 3 {
                        thousandths = thousandths + ((s[p + 3] - 48) as u128);
                    }
                    let wide: u128 = (whole as u128) * 1000 + thousandths;
                    if wide > u64::MAX as u128 {
                        u64::MAX
                    } else {
                        wide as u64
                    }
                },
            }
        },
    }
}

} // verus!
