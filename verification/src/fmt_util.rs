//! Rendering of integers into decimal and hexadecimal text.

use vstd::prelude::*;
use vstd::string::StringExecFns;

verus! {

/// The decimal digit character for a value below ten.
pub open spec fn dec_digit(d: int) -> char {
    if d == 0 {
        '0'
    } else if d == 1 {
        '1'
    } else if d == 2 {
        '2'
    } else if d == 3 {
        '3'
    } else if d == 4 {
        '4'
    } else if d == 5 {
        '5'
    } else if d == 6 {
        '6'
    } else if d == 7 {
        '7'
    } else if d == 8 {
        '8'
    } else {
        '9'
    }
}

/// The decimal rendering of a non-negative value.
pub open spec fn dec_digits(n: int) -> Seq<char>
    decreases n,
{
    if n < 10 {
        seq![dec_digit(n)]
    } else {
        dec_digits(n / 10).push(dec_digit(n % 10))
    }
}

/// The hexadecimal digit character for a value below sixteen.
pub open spec fn hex_digit(d: int) -> char {
    if d < 10 {
        dec_digit(d)
    } else if d == 10 {
        'a'
    } else if d == 11 {
        'b'
    } else if d == 12 {
        'c'
    } else if d == 13 {
        'd'
    } else if d == 14 {
        'e'
    } else {
        'f'
    }
}

/// The hexadecimal rendering of a non-negative value.
pub open spec fn hex_digits(n: int) -> Seq<char>
    decreases n,
{
    if n < 16 {
        seq![hex_digit(n)]
    } else {
        hex_digits(n / 16).push(hex_digit(n % 16))
    }
}

/// The hexadecimal rendering padded with zeroes to at least two digits.
pub open spec fn hex02(n: int) -> Seq<char> {
    if n < 16 {
        seq!['0', hex_digit(n)]
    } else {
        hex_digits(n)
    }
}

fn dec_digit_str(d: u128) -> (r: String)
    requires
        d < 10,
    ensures
        r@ == seq![dec_digit(d as int)],
{
    let r = match d {
        0u128 => String::from_str("0"),
        1u128 => String::from_str("1"),
        2u128 => String::from_str("2"),
        3u128 => String::from_str("3"),
        4u128 => String::from_str("4"),
        5u128 => String::from_str("5"),
        6u128 => String::from_str("6"),
        7u128 => String::from_str("7"),
        8u128 => String::from_str("8"),
        _ => String::from_str("9"),
    };
    proof {
        reveal_strlit("0");
        reveal_strlit("1");
        reveal_strlit("2");
        reveal_strlit("3");
        reveal_strlit("4");
        reveal_strlit("5");
        reveal_strlit("6");
        reveal_strlit("7");
        reveal_strlit("8");
        reveal_strlit("9");
        assert(r@ =~= seq![dec_digit(d as int)]);
    }
    r
}

fn hex_digit_str(d: u128) -> (r: String)
    requires
        d < 16,
    ensures
        r@ == seq![hex_digit(d as int)],
{
    if d < 10 {
        dec_digit_str(d)
    } else {
        let r = match d {
            10u128 => String::from_str("a"),
            11u128 => String::from_str("b"),
            12u128 => String::from_str("c"),
            13u128 => String::from_str("d"),
            14u128 => String::from_str("e"),
            _ => String::from_str("f"),
        };
        proof {
            reveal_strlit("a");
            reveal_strlit("b");
            reveal_strlit("c");
            reveal_strlit("d");
            reveal_strlit("e");
            reveal_strlit("f");
            assert(r@ =~= seq![hex_digit(d as int)]);
        }
        r
    }
}

/// Renders a value in decimal.
pub fn u128_to_string(n: u128) -> (r: String)
    ensures
        r@ == dec_digits(n as int),
    decreases n,
{
    if n < 10 {
        dec_digit_str(n)
    } else {
        let mut s = u128_to_string(n / 10);
        let d = dec_digit_str(n % 10);
        s.append(d.as_str());
        proof {
            assert(s@ =~= dec_digits(n as int));
        }
        s
    }
}

/// Renders a value in decimal.
pub fn u64_to_string(n: u64) -> (r: String)
    ensures
        r@ == dec_digits(n as int),
{
    u128_to_string(n as u128)
}

/// Renders a value in hexadecimal, zero-padded to at least two digits.
pub fn u128_to_hex02(n: u128) -> (r: String)
    ensures
        r@ == hex02(n as int),
{
    if n < 16 {
        let mut s = String::from_str("0");
        let d = hex_digit_str(n);
        s.append(d.as_str());
        proof {
            reveal_strlit("0");
            assert(s@ =~= hex02(n as int));
        }
        s
    } else {
        u128_to_hex(n)
    }
}

/// The low `k` hexadecimal digits of a value, zero-padded to width `k`.
pub open spec fn hex_fixed(n: int, k: int) -> Seq<char>
    decreases k,
{
    if k <= 0 {
        Seq::empty()
    } else {
        hex_fixed(n / 16, k - 1).push(hex_digit(n % 16))
    }
}

/// The hexadecimal rendering zero-padded to thirty-two digits — every
/// value fits, so no digit is ever cut.
pub open spec fn hex032(n: int) -> Seq<char> {
    hex_fixed(n, 32)
}

/// Renders a value in hexadecimal, zero-padded to thirty-two digits.
pub fn u128_to_hex032(n: u128) -> (r: String)
    ensures
        r@ == hex032(n as int),
{
    hex_fixed_render(n, 32)
}

fn hex_fixed_render(n: u128, k: usize) -> (r: String)
    ensures
        r@ == hex_fixed(n as int, k as int),
    decreases k,
{
    if k == 0 {
        String::new()
    } else {
        let mut s = hex_fixed_render(n / 16, k - 1);
        let d = hex_digit_str(n % 16);
        s.append(d.as_str());
        proof {
            assert(s@ =~= hex_fixed(n as int, k as int));
        }
        s
    }
}

fn u128_to_hex(n: u128) -> (r: String)
    ensures
        r@ == hex_digits(n as int),
    decreases n,
{
    if n < 16 {
        hex_digit_str(n)
    } else {
        let mut s = u128_to_hex(n / 16);
        let d = hex_digit_str(n % 16);
        s.append(d.as_str());
        proof {
            assert(s@ =~= hex_digits(n as int));
        }
        s
    }
}

} // verus!
