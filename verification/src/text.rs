//! Decimal and hexadecimal rendering of 16-bit values, with exact
//! character-sequence specifications for the listing and the trace.

use vstd::prelude::*;

verus! {

broadcast use vstd::string::group_string_axioms;

/// The character of a decimal digit.
pub open spec fn spec_digit_char(d: nat) -> char
    recommends
        d < 10,
{
    if d == 0 {
        '0'
    } else if d == 1 {
        '1'
    } else if d == 2 {
        '2'
    } else if d == 3 {
        '3'
    } else if d == 4 {
        '4'
    } else if d == 5 {
        '5'
    } else if d == 6 {
        '6'
    } else if d == 7 {
        '7'
    } else if d == 8 {
        '8'
    } else {
        '9'
    }
}

/// The decimal rendering of a natural number, without leading zeros.
pub open spec fn spec_dec_nat(v: nat) -> Seq<char>
    decreases v,
{
    if v < 10 {
        seq![spec_digit_char(v)]
    } else {
        spec_dec_nat(v / 10).push(spec_digit_char(v % 10))
    }
}

/// The decimal rendering of an integer: a minus sign before the magnitude
/// when the value is negative.
pub open spec fn spec_dec_int(v: int) -> Seq<char> {
    if v < 0 {
        seq!['-'] + spec_dec_nat((-v) as nat)
    } else {
        spec_dec_nat(v as nat)
    }
}

/// The character of a hexadecimal digit, upper case.
pub open spec fn spec_hex_digit(d: nat) -> char
    recommends
        d < 16,
{
    if d < 10 {
        spec_digit_char(d)
    } else if d == 10 {
        'A'
    } else if d == 11 {
        'B'
    } else if d == 12 {
        'C'
    } else if d == 13 {
        'D'
    } else if d == 14 {
        'E'
    } else {
        'F'
    }
}

/// The rendering of a 16-bit value as `0x` and four upper-case
/// hexadecimal digits.
pub open spec fn spec_hex4(v: u16) -> Seq<char> {
    seq![
        '0',
        'x',
        spec_hex_digit((v / 0x1000) as nat),
        spec_hex_digit(((v / 0x100) % 16) as nat),
        spec_hex_digit(((v / 16) % 16) as nat),
        spec_hex_digit((v % 16) as nat),
    ]
}

/// One decimal digit as a string.
fn dec_digit_string(d: u8) -> (r: String)
    requires
        d < 10,
    ensures
        r@ =~= seq![spec_digit_char(d as nat)],
{
    proof {
        reveal_strlit("0");
        reveal_strlit("1");
        reveal_strlit("2");
        reveal_strlit("3");
        reveal_strlit("4");
        reveal_strlit("5");
        reveal_strlit("6");
        reveal_strlit("7");
        reveal_strlit("8");
        reveal_strlit("9");
    }
    if d == 0 {
        "0".to_owned()
    } else if d == 1 {
        "1".to_owned()
    } else if d == 2 {
        "2".to_owned()
    } else if d == 3 {
        "3".to_owned()
    } else if d == 4 {
        "4".to_owned()
    } else if d == 5 {
        "5".to_owned()
    } else if d == 6 {
        "6".to_owned()
    } else if d == 7 {
        "7".to_owned()
    } else if d == 8 {
        "8".to_owned()
    } else {
        "9".to_owned()
    }
}

/// One hexadecimal digit as a string, upper case.
fn hex_digit_string(d: u8) -> (r: String)
    requires
        d < 16,
    ensures
        r@ =~= seq![spec_hex_digit(d as nat)],
{
    proof {
        reveal_strlit("A");
        reveal_strlit("B");
        reveal_strlit("C");
        reveal_strlit("D");
        reveal_strlit("E");
        reveal_strlit("F");
    }
    if d < 10 {
        dec_digit_string(d)
    } else if d == 10 {
        "A".to_owned()
    } else if d == 11 {
        "B".to_owned()
    } else if d == 12 {
        "C".to_owned()
    } else if d == 13 {
        "D".to_owned()
    } else if d == 14 {
        "E".to_owned()
    } else {
        "F".to_owned()
    }
}

/// Render a 16-bit value in decimal.
pub fn u16_to_dec(v: u16) -> (r: String)
    ensures
        r@ == spec_dec_nat(v as nat),
    decreases v,
{
    if v < 10 {
        let r = dec_digit_string(v as u8);
        assert(r@ =~= spec_dec_nat(v as nat));
        r
    } else {
        let mut s = u16_to_dec(v / 10);
        let tail = dec_digit_string((v % 10) as u8);
        s.append(tail.as_str());
        assert(s@ =~= spec_dec_nat(v as nat));
        s
    }
}

/// Render a signed 16-bit value in decimal.
pub fn i16_to_dec(v: i16) -> (r: String)
    ensures
        r@ == spec_dec_int(v as int),
{
    proof {
        reveal_strlit("-");
    }
    if v >= 0 {
        u16_to_dec(v as u16)
    } else {
        let magnitude: u16 = (-(v as i32)) as u16;
        let mut s = "-".to_owned();
        let tail = u16_to_dec(magnitude);
        s.append(tail.as_str());
        assert(s@ =~= spec_dec_int(v as int));
        s
    }
}

/// Render a 16-bit value as `0x` and four upper-case hexadecimal digits.
pub fn u16_to_hex(v: u16) -> (r: String)
    ensures
        r@ == spec_hex4(v),
{
    proof {
        reveal_strlit("0x");
    }
    let mut s = "0x".to_owned();
    let d0 = hex_digit_string((v / 0x1000) as u8);
    let d1 = hex_digit_string(((v / 0x100) % 16) as u8);
    let d2 = hex_digit_string(((v / 16) % 16) as u8);
    let d3 = hex_digit_string((v % 16) as u8);
    s.append(d0.as_str());
    s.append(d1.as_str());
    s.append(d2.as_str());
    s.append(d3.as_str());
    assert(s@ =~= spec_hex4(v));
    s
}

} // verus!
