//! Small text-building blocks: decimal renderings of counters and the
//! hyphenated lowercase-hex form of a sixteen-byte identifier.
//!
//! Registry keys and record fields are plain strings, so the registry's
//! contracts need an exact account of how a number or an identifier is
//! written out; these functions provide it.

use vstd::prelude::*;

verus! {

/// The decimal digit character for `d`.
pub open spec fn dec_digit(d: nat) -> char
    recommends
        d < 10,
{
    if d == 0 {
        '0'
    } else if d == 1 {
        '1'
    } else if d == 2 {
        '2'
    } else if d == 3 {
        '3'
    } else if d == 4 {
        '4'
    } else if d == 5 {
        '5'
    } else if d == 6 {
        '6'
    } else if d == 7 {
        '7'
    } else if d == 8 {
        '8'
    } else {
        '9'
    }
}

/// The usual decimal rendering of `n`, most significant digit first and
/// without leading zeros (a single zero for zero itself).
pub open spec fn dec_str(n: nat) -> Seq<char>
    decreases n,
{
    if n < 10 {
        seq![dec_digit(n)]
    } else {
        dec_str(n / 10) + seq![dec_digit(n % 10)]
    }
}

/// The lowercase hexadecimal digit character for `d`.
pub open spec fn hex_digit(d: nat) -> char
    recommends
        d < 16,
{
    if d == 10 {
        'a'
    } else if d == 11 {
        'b'
    } else if d == 12 {
        'c'
    } else if d == 13 {
        'd'
    } else if d == 14 {
        'e'
    } else if d == 15 {
        'f'
    } else {
        dec_digit(d)
    }
}

/// The two lowercase hexadecimal digits of one byte.
pub open spec fn hex_byte(b: u8) -> Seq<char> {
    seq![hex_digit(b as nat / 16), hex_digit(b as nat % 16)]
}

/// The 8-4-4-4-12 hyphenated lowercase-hex form of sixteen identifier bytes.
pub open spec fn uuid_hyphenated(s: Seq<u8>) -> Seq<char>
    recommends
        s.len() == 16,
{
    hex_byte(s[0]) + hex_byte(s[1]) + hex_byte(s[2]) + hex_byte(s[3]) + seq!['-'] + hex_byte(s[4])
        + hex_byte(s[5]) + seq!['-'] + hex_byte(s[6]) + hex_byte(s[7]) + seq!['-'] + hex_byte(s[8])
        + hex_byte(s[9]) + seq!['-'] + hex_byte(s[10]) + hex_byte(s[11]) + hex_byte(s[12])
        + hex_byte(s[13]) + hex_byte(s[14]) + hex_byte(s[15])
}

/// Appends the decimal digit character for `d` to `out`.
fn push_dec_digit(out: &mut String, d: u8)
    requires
        d < 10,
    ensures
        final(out)@ == old(out)@ + seq![dec_digit(d as nat)],
{
    let lit: &str = match d {
        0 => "0",
        1 => "1",
        2 => "2",
        3 => "3",
        4 => "4",
        5 => "5",
        6 => "6",
        7 => "7",
        8 => "8",
        _ => "9",
    };
    proof {
        reveal_strlit("0");
        reveal_strlit("1");
        reveal_strlit("2");
        reveal_strlit("3");
        reveal_strlit("4");
        reveal_strlit("5");
        reveal_strlit("6");
        reveal_strlit("7");
        reveal_strlit("8");
        reveal_strlit("9");
    }
    out.append(lit);
    assert(out@ =~= old(out)@ + seq![dec_digit(d as nat)]);
}

/// Appends the lowercase hexadecimal digit character for `d` to `out`.
fn push_hex_digit(out: &mut String, d: u8)
    requires
        d < 16,
    ensures
        final(out)@ == old(out)@ + seq![hex_digit(d as nat)],
{
    if d < 10 {
        push_dec_digit(out, d);
    } else {
        let lit: &str = match d {
            10 => "a",
            11 => "b",
            12 => "c",
            13 => "d",
            14 => "e",
            _ => "f",
        };
        proof {
            reveal_strlit("a");
            reveal_strlit("b");
            reveal_strlit("c");
            reveal_strlit("d");
            reveal_strlit("e");
            reveal_strlit("f");
        }
        out.append(lit);
        assert(out@ =~= old(out)@ + seq![hex_digit(d as nat)]);
    }
}

/// Appends both hexadecimal digits of `b` to `out`.
fn push_hex_byte(out: &mut String, b: u8)
    ensures
        final(out)@ == old(out)@ + hex_byte(b),
{
    push_hex_digit(out, b / 16);
    push_hex_digit(out, b % 16);
    assert(out@ =~= old(out)@ + hex_byte(b));
}

/// Renders `n` in decimal, exactly as [`dec_str`] describes.
pub fn u64_to_dec(n: u64) -> (r: String)
    ensures
        r@ == dec_str(n as nat),
    decreases n,
{
    if n < 10 {
        let mut out = String::new();
        push_dec_digit(&mut out, n as u8);
        out
    } else {
        let mut out = u64_to_dec(n / 10);
        push_dec_digit(&mut out, (n % 10) as u8);
        out
    }
}

/// Renders sixteen identifier bytes in the hyphenated form, exactly as
/// [`uuid_hyphenated`] describes.
pub fn hyphenate_bytes(b: &[u8; 16]) -> (r: String)
    ensures
        r@ == uuid_hyphenated(b@),
{
    proof {
        reveal_strlit("-");
    }
    let mut out = String::new();
    push_hex_byte(&mut out, b[0]);
    push_hex_byte(&mut out, b[1]);
    push_hex_byte(&mut out, b[2]);
    push_hex_byte(&mut out, b[3]);
    out.append("-");
    push_hex_byte(&mut out, b[4]);
    push_hex_byte(&mut out, b[5]);
    out.append("-");
    push_hex_byte(&mut out, b[6]);
    push_hex_byte(&mut out, b[7]);
    out.append("-");
    push_hex_byte(&mut out, b[8]);
    push_hex_byte(&mut out, b[9]);
    out.append("-");
    push_hex_byte(&mut out, b[10]);
    push_hex_byte(&mut out, b[11]);
    push_hex_byte(&mut out, b[12]);
    push_hex_byte(&mut out, b[13]);
    push_hex_byte(&mut out, b[14]);
    push_hex_byte(&mut out, b[15]);
    assert(out@ =~= uuid_hyphenated(b@));
    out
}

} // verus!
