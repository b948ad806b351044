//! Menu-label formatting: every mode is shown as
//! `"{width}x{height}@{refreshRate}"`, in decimal with no leading zeros.

use vstd::prelude::*;

verus! {

/// The character for one decimal digit.
pub open spec fn digit_char(d: nat) -> char {
    if d == 0 {
        '0'
    } else if d == 1 {
        '1'
    } else if d == 2 {
        '2'
    } else if d == 3 {
        '3'
    } else if d == 4 {
        '4'
    } else if d == 5 {
        '5'
    } else if d == 6 {
        '6'
    } else if d == 7 {
        '7'
    } else if d == 8 {
        '8'
    } else {
        '9'
    }
}

/// The decimal representation of `n`, most significant digit first, with
/// no leading zeros (zero itself is written as the single digit `0`).
pub open spec fn dec_rep(n: nat) -> Seq<char>
    decreases n,
{
    if n < 10 {
        seq![digit_char(n)]
    } else {
        dec_rep(n / 10) + seq![digit_char(n % 10)]
    }
}

/// The menu label of a mode with the given width, height and refresh
/// rate: the three numbers in decimal, joined by the two literal
/// characters `x` and `@`.
pub open spec fn label_of(w: u32, h: u32, r: u32) -> Seq<char> {
    dec_rep(w as nat) + seq!['x'] + dec_rep(h as nat) + seq!['@'] + dec_rep(r as nat)
}

/// One decimal digit as a string slice.
fn digit_str(d: u32) -> (s: &'static str)
    requires
        d < 10,
    ensures
        s@ == seq![digit_char(d as nat)],
{
    let s: &'static str = match d {
        0 => "0",
        1 => "1",
        2 => "2",
        3 => "3",
        4 => "4",
        5 => "5",
        6 => "6",
        7 => "7",
        8 => "8",
        _ => "9",
    };
    proof {
        reveal_strlit("0");
        reveal_strlit("1");
        reveal_strlit("2");
        reveal_strlit("3");
        reveal_strlit("4");
        reveal_strlit("5");
        reveal_strlit("6");
        reveal_strlit("7");
        reveal_strlit("8");
        reveal_strlit("9");
        assert(s@ =~= seq![digit_char(d as nat)]);
    }
    s
}

/// Decimal formatting of a 32-bit unsigned integer.
pub fn u32_to_decimal(n: u32) -> (s: String)
    ensures
        s@ == dec_rep(n as nat),
    decreases n,
{
    if n < 10 {
        digit_str(n).to_owned()
    } else {
        let mut s = u32_to_decimal(n / 10);
        s.append(digit_str(n % 10));
        s
    }
}

/// The label under which a mode appears in the tray menu.
pub fn format_label(w: u32, h: u32, r: u32) -> (s: String)
    ensures
        s@ == label_of(w, h, r),
{
    let mut s = u32_to_decimal(w);
    s.append("x");
    let hs = u32_to_decimal(h);
    s.append(hs.as_str());
    s.append("@");
    let rs = u32_to_decimal(r);
    s.append(rs.as_str());
    proof {
        reveal_strlit("x");
        reveal_strlit("@");
        assert(s@ =~= label_of(w, h, r));
    }
    s
}

} // verus!
