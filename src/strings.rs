//! Decimal and hexadecimal formatting for identities and texture keys.

use vstd::prelude::*;

verus! {

/// The lowercase hexadecimal digit for `d < 16`.
pub open spec fn hex_char(d: nat) -> char {
    if d < 10 {
        ((48 + d) as u8) as char
    } else {
        ((87 + d) as u8) as char
    }
}

/// The decimal digits of `n`, most significant first.
pub open spec fn decimal(n: nat) -> Seq<char>
    decreases n,
{
    if n < 10 {
        seq![hex_char(n)]
    } else {
        decimal(n / 10) + seq![hex_char(n % 10)]
    }
}

/// A byte in lowercase hexadecimal without leading zeros.
pub open spec fn hex_byte(v: u8) -> Seq<char> {
    if v < 16 {
        seq![hex_char(v as nat)]
    } else {
        seq![hex_char((v / 16) as nat), hex_char((v % 16) as nat)]
    }
}

fn digit_str(d: u8) -> (r: &'static str)
    requires
        d < 16,
    ensures
        r@ == seq![hex_char(d as nat)],
{
    match d {
        0 => { proof { reveal_strlit("0"); } "0" },
        1 => { proof { reveal_strlit("1"); } "1" },
        2 => { proof { reveal_strlit("2"); } "2" },
        3 => { proof { reveal_strlit("3"); } "3" },
        4 => { proof { reveal_strlit("4"); } "4" },
        5 => { proof { reveal_strlit("5"); } "5" },
        6 => { proof { reveal_strlit("6"); } "6" },
        7 => { proof { reveal_strlit("7"); } "7" },
        8 => { proof { reveal_strlit("8"); } "8" },
        9 => { proof { reveal_strlit("9"); } "9" },
        10 => { proof { reveal_strlit("a"); } "a" },
        11 => { proof { reveal_strlit("b"); } "b" },
        12 => { proof { reveal_strlit("c"); } "c" },
        13 => { proof { reveal_strlit("d"); } "d" },
        14 => { proof { reveal_strlit("e"); } "e" },
        _ => { proof { reveal_strlit("f"); } "f" },
    }
}

/// Appends the decimal digits of `n`.
pub fn push_decimal(s: &mut String, n: usize)
    ensures
        final(s)@ == old(s)@ + decimal(n as nat),
    decreases n,
{
    if n < 10 {
        s.append(digit_str(n as u8));
    } else {
        push_decimal(s, n / 10);
        s.append(digit_str((n % 10) as u8));
        assert(final(s)@ =~= old(s)@ + decimal(n as nat));
    }
}

/// Appends a byte in lowercase hexadecimal without leading zeros.
pub fn push_hex_byte(s: &mut String, v: u8)
    ensures
        final(s)@ == old(s)@ + hex_byte(v),
{
    if v < 16 {
        s.append(digit_str(v));
    } else {
        s.append(digit_str(v / 16));
        s.append(digit_str(v % 16));
        assert(final(s)@ =~= old(s)@ + hex_byte(v));
    }
}

/// The structural identity of child `i` under `path`: `path/i`.
pub fn child_path(path: &String, i: usize) -> (r: String)
    ensures
        r@ == path@ + seq!['/'] + decimal(i as nat),
{
    let mut s = path.clone();
    proof {
        reveal_strlit("/");
    }
    s.append("/");
    push_decimal(&mut s, i);
    assert(s@ =~= path@ + seq!['/'] + decimal(i as nat));
    s
}

} // verus!
