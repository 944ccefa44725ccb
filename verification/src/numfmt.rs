//! Rendering integers as text, exactly.
//!
//! Identifiers and hash preimages in this crate are strings built from
//! numbers, so the decimal and hexadecimal renderings are specified as
//! recursive sequence functions and the builders are proved against them.

use vstd::prelude::*;

verus! {

/// Relies on String::push from std: appends exactly one character.
pub assume_specification[ String::push ](s: &mut String, ch: char)
    ensures
        final(s)@ == old(s)@.push(ch),
;

/// The character for one decimal digit.
pub open spec fn dec_digit(d: nat) -> char
    recommends
        d < 10,
{
    ((48 + d) as u8) as char
}

/// The decimal rendering of `n`, most significant digit first, no sign and
/// no leading zeros (a single `'0'` for zero).
pub open spec fn dec_str(n: nat) -> Seq<char>
    decreases n,
{
    if n < 10 {
        seq![dec_digit(n)]
    } else {
        dec_str(n / 10).push(dec_digit(n % 10))
    }
}

/// The decimal rendering of a signed value: a `'-'` before the magnitude.
pub open spec fn dec_str_signed(n: int) -> Seq<char> {
    if n < 0 {
        seq!['-'] + dec_str((-n) as nat)
    } else {
        dec_str(n as nat)
    }
}

/// The character for one hexadecimal digit, lower case.
pub open spec fn hex_digit(d: nat) -> char
    recommends
        d < 16,
{
    if d < 10 {
        ((48 + d) as u8) as char
    } else {
        ((87 + d) as u8) as char
    }
}

/// The hexadecimal rendering of `n`, as `{:x}` prints it: lower case, no
/// leading zeros.
pub open spec fn hex_str(n: nat) -> Seq<char>
    decreases n,
{
    if n < 16 {
        seq![hex_digit(n)]
    } else {
        hex_str(n / 16).push(hex_digit(n % 16))
    }
}

/// A milli-unit quantity rendered with two places after the point,
/// truncated: `98765` becomes `98.76`.
pub open spec fn milli_str(l: nat) -> Seq<char> {
    dec_str(l / 1000) + seq!['.'] + seq![dec_digit((l % 1000) / 100), dec_digit((l % 1000) / 10 % 10)]
}

/// The character for a decimal digit, computed.
fn dec_digit_exec(d: u64) -> (c: char)
    requires
        d < 10,
    ensures
        c == dec_digit(d as nat),
{
    (48 + d as u8) as char
}

/// The character for a hexadecimal digit, computed.
pub(crate) fn hex_digit_exec(d: u64) -> (c: char)
    requires
        d < 16,
    ensures
        c == hex_digit(d as nat),
{
    if d < 10 {
        (48 + d as u8) as char
    } else {
        (87 + d as u8) as char
    }
}

/// Append the decimal rendering of `n` to `s`.
pub fn push_dec(s: &mut String, n: u64)
    ensures
        final(s)@ == old(s)@ + dec_str(n as nat),
    decreases n,
{
    if n < 10 {
        s.push(dec_digit_exec(n));
    } else {
        push_dec(s, n / 10);
        s.push(dec_digit_exec(n % 10));
        proof {
            assert(old(s)@ + dec_str(n as nat) =~= (old(s)@ + dec_str(n as nat / 10)).push(
                dec_digit(n as nat % 10),
            ));
        }
    }
}

/// Append the decimal rendering of a signed value to `s`.
pub fn push_dec_signed(s: &mut String, n: i64)
    ensures
        final(s)@ == old(s)@ + dec_str_signed(n as int),
{
    if n < 0 {
        s.push('-');
        let magnitude: u64 = (-(n as i128)) as u64;
        push_dec(s, magnitude);
        proof {
            assert(old(s)@ + dec_str_signed(n as int) =~= old(s)@.push('-') + dec_str(
                (-(n as int)) as nat,
            ));
        }
    } else {
        push_dec(s, n as u64);
    }
}

/// Append the hexadecimal rendering of `n` to `s`.
pub fn push_hex(s: &mut String, n: u64)
    ensures
        final(s)@ == old(s)@ + hex_str(n as nat),
    decreases n,
{
    if n < 16 {
        s.push(hex_digit_exec(n));
    } else {
        push_hex(s, n / 16);
        s.push(hex_digit_exec(n % 16));
        proof {
            assert(old(s)@ + hex_str(n as nat) =~= (old(s)@ + hex_str(n as nat / 16)).push(
                hex_digit(n as nat % 16),
            ));
        }
    }
}

/// The decimal rendering of `n` as a fresh string.
pub fn u64_to_string(n: u64) -> (s: String)
    ensures
        s@ == dec_str(n as nat),
{
    let mut s = String::new();
    push_dec(&mut s, n);
    s
}

/// The hexadecimal rendering of `n` as a fresh string.
pub fn u64_to_hex_string(n: u64) -> (s: String)
    ensures
        s@ == hex_str(n as nat),
{
    let mut s = String::new();
    push_hex(&mut s, n);
    s
}

/// Append a milli-unit quantity with two places after the point.
pub fn push_milli(s: &mut String, l: u64)
    ensures
        final(s)@ == old(s)@ + milli_str(l as nat),
{
    push_dec(s, l / 1000);
    s.push('.');
    s.push(dec_digit_exec(l % 1000 / 100));
    s.push(dec_digit_exec(l % 1000 / 10 % 10));
    proof {
        assert(old(s)@ + milli_str(l as nat) =~= (((old(s)@ + dec_str(
            l as nat / 1000,
        )).push('.')).push(dec_digit((l as nat % 1000) / 100))).push(
            dec_digit((l as nat % 1000) / 10 % 10),
        ));
    }
}

} // verus!
