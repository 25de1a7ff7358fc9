//! Rendering the countdown as text: each counter becomes one line of ASCII
//! decimal digits at a fixed vertical offset, ready for a display driver.

use vstd::prelude::*;
use crate::countdown::CountdownState;

verus! {

/// The vertical pixel offset between two rendered lines.
pub const LINE_SPACING: u32 = 16;

/// 10^k.
pub open spec fn pow10(k: nat) -> nat
    decreases k,
{
    if k == 0 {
        1
    } else {
        10 * pow10((k - 1) as nat)
    }
}

/// The ASCII code of the digit character zero.
pub const DIGIT_ZERO: u8 = 0x30;

/// The numeric value of a most-significant-first sequence of ASCII digits.
pub open spec fn dec_value(s: Seq<u8>) -> nat
    decreases s.len(),
{
    if s.len() == 0 {
        0
    } else {
        (s[0] - DIGIT_ZERO) as nat * pow10((s.len() - 1) as nat) + dec_value(
            s.subrange(1, s.len() as int),
        )
    }
}

/// Every byte of the sequence is an ASCII decimal digit.
pub open spec fn all_digits(s: Seq<u8>) -> bool {
    forall|i: int| 0 <= i < s.len() ==> DIGIT_ZERO <= #[trigger] s[i] <= 0x39
}

/// The canonical decimal text of `n`: only digits, at least one of them,
/// and no leading zero except on zero itself.
pub open spec fn is_decimal(s: Seq<u8>, n: nat) -> bool {
    &&& all_digits(s)
    &&& s.len() >= 1
    &&& dec_value(s) == n
    &&& (s.len() > 1 ==> s[0] != DIGIT_ZERO)
}

proof fn lemma_prepend_digit(n: int, rest0: int, rest1: int, d: int, p: int, v: int)
    requires
        rest0 == 10 * rest1 + d,
        n == rest0 * p + v,
    ensures
        n == rest1 * (10 * p) + (d * p + v),
{
    broadcast use vstd::arithmetic::mul::group_mul_properties;

}

/// The decimal digits of `n`, most significant first.
pub fn decimal_digits(n: u16) -> (r: Vec<u8>)
    ensures
        is_decimal(r@, n as nat),
{
    let mut digits: Vec<u8> = Vec::new();
    let mut rest: u16 = n;
    proof {
        assert(pow10(0) == 1);
        assert(digits@ =~= Seq::<u8>::empty());
        assert(dec_value(digits@) == 0);
    }
    loop
        invariant_except_break
            digits@.len() == 0 ==> rest == n,
            digits@.len() > 0 ==> rest > 0,
        invariant
            all_digits(digits@),
            n as int == rest as int * pow10(digits@.len()) + dec_value(digits@),
        ensures
            rest == 0,
            digits@.len() >= 1,
            digits@.len() > 1 ==> digits@[0] != DIGIT_ZERO,
        decreases rest,
    {
        let d: u8 = (rest % 10) as u8;
        let ghost before = digits@;
        digits.insert(0, d + DIGIT_ZERO);
        proof {
            assert(digits@.subrange(1, digits@.len() as int) =~= before);
            lemma_prepend_digit(
                n as int,
                rest as int,
                rest as int / 10,
                d as int,
                pow10(before.len()) as int,
                dec_value(before) as int,
            );
        }
        rest = rest / 10;
        if rest == 0 {
            break;
        }
    }
    digits
}

/// One line of text to draw: ASCII content and a vertical pixel offset.
#[derive(Debug, PartialEq, Eq)]
pub struct TextLine {
    pub y: u32,
    pub text: Vec<u8>,
}

/// The three lines that display a countdown state: hour, minute and second
/// as decimal text at vertical offsets 0, 16 and 32.
pub open spec fn renders(lines: Seq<TextLine>, s: CountdownState) -> bool {
    &&& lines.len() == 3
    &&& lines[0].y == 0
    &&& is_decimal(lines[0].text@, s.hour as nat)
    &&& lines[1].y == LINE_SPACING
    &&& is_decimal(lines[1].text@, s.minute as nat)
    &&& lines[2].y == 2 * LINE_SPACING
    &&& is_decimal(lines[2].text@, s.second as nat)
}

/// Lays the three counters out as text lines for the display.
pub fn render_lines(s: &CountdownState) -> (r: Vec<TextLine>)
    ensures
        renders(r@, *s),
{
    let mut r: Vec<TextLine> = Vec::new();
    r.push(TextLine { y: 0, text: decimal_digits(s.hour) });
    r.push(TextLine { y: LINE_SPACING, text: decimal_digits(s.minute as u16) });
    r.push(TextLine { y: 2 * LINE_SPACING, text: decimal_digits(s.second as u16) });
    r
}

} // verus!
