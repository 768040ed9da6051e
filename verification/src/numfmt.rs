//! Zero-padded decimal and hexadecimal rendering of integer literals.
//!
//! A stringified integer is embedded in a generated function name, so the
//! rendering is fixed-width where possible: decimal values are padded to ten
//! digits, hexadecimal ones to two digits for byte values and sixteen
//! otherwise.

use vstd::prelude::*;

verus! {

/// The character for one digit value below sixteen.
pub open spec fn digit_char(d: nat) -> char {
    if d == 0 {
        '0'
    } else if d == 1 {
        '1'
    } else if d == 2 {
        '2'
    } else if d == 3 {
        '3'
    } else if d == 4 {
        '4'
    } else if d == 5 {
        '5'
    } else if d == 6 {
        '6'
    } else if d == 7 {
        '7'
    } else if d == 8 {
        '8'
    } else if d == 9 {
        '9'
    } else if d == 10 {
        'a'
    } else if d == 11 {
        'b'
    } else if d == 12 {
        'c'
    } else if d == 13 {
        'd'
    } else if d == 14 {
        'e'
    } else {
        'f'
    }
}

/// The decimal digits of a value, most significant first, with no leading
/// zero except for the value zero itself.
pub open spec fn dec_digits(v: nat) -> Seq<char>
    decreases v,
{
    if v < 10 {
        seq![digit_char(v)]
    } else {
        dec_digits(v / 10).push(digit_char(v % 10))
    }
}

/// The lowercase hexadecimal digits of a value, most significant first.
pub open spec fn hex_digits(v: nat) -> Seq<char>
    decreases v,
{
    if v < 16 {
        seq![digit_char(v)]
    } else {
        hex_digits(v / 16).push(digit_char(v % 16))
    }
}

/// A digit string left-padded with zeros up to `width`; one that is already
/// wide enough is kept as it is.
pub open spec fn zero_pad(s: Seq<char>, width: nat) -> Seq<char> {
    if s.len() >= width {
        s
    } else {
        Seq::new((width - s.len()) as nat, |i: int| '0') + s
    }
}

/// The character for one digit value, as `digit_char` says.
pub fn digit_to_char(d: u64) -> (c: char)
    requires
        d < 16,
    ensures
        c == digit_char(d as nat),
{
    if d == 0 {
        '0'
    } else if d == 1 {
        '1'
    } else if d == 2 {
        '2'
    } else if d == 3 {
        '3'
    } else if d == 4 {
        '4'
    } else if d == 5 {
        '5'
    } else if d == 6 {
        '6'
    } else if d == 7 {
        '7'
    } else if d == 8 {
        '8'
    } else if d == 9 {
        '9'
    } else if d == 10 {
        'a'
    } else if d == 11 {
        'b'
    } else if d == 12 {
        'c'
    } else if d == 13 {
        'd'
    } else if d == 14 {
        'e'
    } else {
        'f'
    }
}

/// Render a value in decimal, most significant digit first.
pub fn render_dec(v: u64) -> (r: Vec<char>)
    ensures
        r@ == dec_digits(v as nat),
    decreases v,
{
    if v < 10 {
        let mut r: Vec<char> = Vec::new();
        r.push(digit_to_char(v));
        proof {
            assert(r@ =~= dec_digits(v as nat));
        }
        r
    } else {
        let mut r = render_dec(v / 10);
        r.push(digit_to_char(v % 10));
        r
    }
}

/// Render a value in lowercase hexadecimal, most significant digit first.
pub fn render_hex(v: u64) -> (r: Vec<char>)
    ensures
        r@ == hex_digits(v as nat),
    decreases v,
{
    if v < 16 {
        let mut r: Vec<char> = Vec::new();
        r.push(digit_to_char(v));
        proof {
            assert(r@ =~= hex_digits(v as nat));
        }
        r
    } else {
        let mut r = render_hex(v / 16);
        r.push(digit_to_char(v % 16));
        r
    }
}

/// Left-pad a digit string with zeros up to `width`.
pub fn pad_zeros(digits: Vec<char>, width: usize) -> (r: Vec<char>)
    ensures
        r@ == zero_pad(digits@, width as nat),
{
    if digits.len() >= width {
        digits
    } else {
        let mut r: Vec<char> = Vec::new();
        let pad: usize = width - digits.len();
        let mut i: usize = 0;
        while i < pad
            invariant
                i <= pad,
                r@ == Seq::new(i as nat, |j: int| '0'),
            decreases pad - i,
        {
            r.push('0');
            i = i + 1;
            proof {
                assert(r@ =~= Seq::new(i as nat, |j: int| '0'));
            }
        }
        r.extend_from_slice(digits.as_slice());
        proof {
            assert(r@ =~= zero_pad(digits@, width as nat));
        }
        r
    }
}

/// Render a value as at least ten decimal digits, zero-padded.
pub fn render_dec_padded10(v: u64) -> (r: Vec<char>)
    ensures
        r@ == zero_pad(dec_digits(v as nat), 10),
{
    pad_zeros(render_dec(v), 10)
}

/// Render a byte as exactly two hexadecimal digits.
pub fn render_hex_byte(v: u8) -> (r: Vec<char>)
    ensures
        r@ == zero_pad(hex_digits(v as nat), 2),
{
    pad_zeros(render_hex(v as u64), 2)
}

/// Render a value as exactly sixteen hexadecimal digits.
pub fn render_hex_padded16(v: u64) -> (r: Vec<char>)
    ensures
        r@ == zero_pad(hex_digits(v as nat), 16),
{
    pad_zeros(render_hex(v), 16)
}

} // verus!
