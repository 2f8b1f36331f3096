//! How a theme's values are written for a stylesheet and a shader alike.
//!
//! The DOM reads the tokens as CSS custom properties on the scope's own root;
//! a GPU region is handed the same numbers as props. A colour is written so
//! that both can read it without parsing a colour space.

use vstd::prelude::*;
use crate::strings::{push_char, push_str};

verus! {

/// sRGB, `0xRRGGBB`.
pub type Color = u32;

/// The lower-case hexadecimal digit for `d`.
pub open spec fn hex_digit_char(d: nat) -> char {
    if d < 10 {
        ((48 + d) as u8) as char
    } else {
        ((87 + d) as u8) as char
    }
}

/// `n` in lower-case hexadecimal, without leading zeros.
pub open spec fn hex_digits(n: nat) -> Seq<char>
    decreases n,
{
    if n < 16 {
        seq![hex_digit_char(n)]
    } else {
        hex_digits(n / 16).push(hex_digit_char(n % 16))
    }
}

/// `#` and the colour in lower-case hexadecimal, padded with zeros to six
/// digits.
pub open spec fn hex_text(color: Color) -> Seq<char> {
    let digits = hex_digits(color as nat);
    seq!['#'] + Seq::new(if digits.len() < 6 {
        (6 - digits.len()) as nat
    } else {
        0
    }, |i: int| '0') + digits
}

fn push_hex_digits(s: &mut String, n: u32)
    ensures
        final(s)@ == old(s)@ + hex_digits(n as nat),
    decreases n,
{
    if n >= 16 {
        push_hex_digits(s, n / 16);
    }
    let d: u8 = (n % 16) as u8;
    let c: char = if d < 10 {
        (48 + d) as char
    } else {
        (87 + d) as char
    };
    push_char(s, c);
    assert(s@ =~= old(s)@ + hex_digits(n as nat));
}

proof fn lemma_hex_digits_len(n: nat)
    ensures
        hex_digits(n).len() >= 1,
        n < 0x1000000 ==> hex_digits(n).len() <= 6,
    decreases n,
{
    if n >= 16 {
        lemma_hex_digits_len(n / 16);
    }
    if n < 0x1000000 {
        assert(pow16(6) == 0x1000000) by {
            reveal_with_fuel(pow16, 7);
        }
        lemma_len_at_most(n, 6);
    }
}

proof fn lemma_len_at_most(n: nat, k: nat)
    requires
        k >= 1,
        n < pow16(k),
    ensures
        hex_digits(n).len() <= k,
    decreases k,
{
    if n >= 16 {
        assert(k >= 2) by {
            if k == 1 {
                assert(pow16(1) == 16 * pow16(0));
            }
        }
        assert(pow16(k) == 16 * pow16((k - 1) as nat));
        assert(n / 16 < pow16((k - 1) as nat));
        lemma_len_at_most(n / 16, (k - 1) as nat);
    }
}

spec fn pow16(k: nat) -> nat
    decreases k,
{
    if k == 0 {
        1
    } else {
        16 * pow16((k - 1) as nat)
    }
}

/// `#rrggbb`, which is what a stylesheet and a shader can both read without
/// either of them parsing a colour space.
pub fn hex(color: Color) -> (r: String)
    ensures
        r@ == hex_text(color),
{
    let mut digits = String::new();
    push_hex_digits(&mut digits, color);
    let n = digits.as_str().unicode_len();
    let mut out = String::new();
    push_char(&mut out, '#');
    let pad: usize = if n < 6 {
        6 - n
    } else {
        0
    };
    let mut i: usize = 0;
    while i < pad
        invariant
            i <= pad,
            out@ == seq!['#'] + Seq::new(i as nat, |k: int| '0'),
        decreases pad - i,
    {
        push_char(&mut out, '0');
        i = i + 1;
        assert(out@ =~= seq!['#'] + Seq::new(i as nat, |k: int| '0'));
    }
    push_str(&mut out, digits.as_str());
    assert(out@ =~= hex_text(color));
    out
}

/// How long a transition may take. Zero is the honest answer to "less
/// movement": the result still arrives, it just does not travel.
pub fn motion(reduce: bool) -> (r: String)
    ensures
        r@ == (if reduce {
            "0ms"@
        } else {
            "150ms"@
        }),
{
    if reduce {
        "0ms".to_owned()
    } else {
        "150ms".to_owned()
    }
}

/// Every property a theme patch can name, in the order it writes them.
pub open spec fn patch_property_names() -> Seq<Seq<char>> {
    seq![
        "--background"@,
        "--foreground"@,
        "--primary"@,
        "--accent"@,
        "--font-size"@,
        "--spacing"@,
        "--radius"@,
    ]
}

/// Every property a theme patch can name. A patch that stops naming one has
/// to take it off the element, not leave the value an earlier patch wrote.
pub fn patch_properties() -> (r: [&'static str; 7])
    ensures
        r@.map_values(|p: &'static str| p@) == patch_property_names(),
{
    let r = ["--background", "--foreground", "--primary", "--accent", "--font-size", "--spacing", "--radius"];
    assert(r@.map_values(|p: &'static str| p@) =~= patch_property_names());
    r
}

/// A colour is always written as `#` and six digits.
pub proof fn law_a_colour_is_seven_characters(color: Color)
    requires
        color <= 0xffffff,
    ensures
        hex_text(color).len() == 7,
        hex_text(color)[0] == '#',
{
    lemma_hex_digits_len(color as nat);
}

} // verus!
