//! Byte classes of the scanned language.
//!
//! The scanner reads its input byte by byte and sorts each byte into a class
//! by its ASCII value alone.

use vstd::prelude::*;

verus! {

/// The byte that stands for the end of the input.
pub const END: u8 = 0;

pub const TAB: u8 = 0x09;

pub const LINE_FEED: u8 = 0x0a;

pub const CARRIAGE_RETURN: u8 = 0x0d;

pub const SPACE: u8 = 0x20;

pub const BANG: u8 = 0x21;

pub const LEFT_PAREN: u8 = 0x28;

pub const RIGHT_PAREN: u8 = 0x29;

pub const ASTERISK: u8 = 0x2a;

pub const PLUS: u8 = 0x2b;

pub const COMMA: u8 = 0x2c;

pub const DASH: u8 = 0x2d;

pub const SLASH: u8 = 0x2f;

pub const DIGIT_ZERO: u8 = 0x30;

pub const DIGIT_NINE: u8 = 0x39;

pub const SEMICOLON: u8 = 0x3b;

pub const LESS_THAN: u8 = 0x3c;

pub const EQUALS: u8 = 0x3d;

pub const GREATER_THAN: u8 = 0x3e;

pub const UPPER_A: u8 = 0x41;

pub const UPPER_Z: u8 = 0x5a;

pub const UNDERSCORE: u8 = 0x5f;

pub const LOWER_A: u8 = 0x61;

pub const LOWER_Z: u8 = 0x7a;

pub const LEFT_BRACE: u8 = 0x7b;

pub const RIGHT_BRACE: u8 = 0x7d;

/// True for the four blank bytes: space, tab, line feed and carriage return.
pub open spec fn is_blank(b: u8) -> bool {
    b == SPACE || b == TAB || b == LINE_FEED || b == CARRIAGE_RETURN
}

/// True for the bytes a word is made of: ASCII letters and the underscore.
pub open spec fn is_letter(b: u8) -> bool {
    (LOWER_A <= b <= LOWER_Z) || (UPPER_A <= b <= UPPER_Z) || b == UNDERSCORE
}

/// True for the ASCII digits.
pub open spec fn is_digit(b: u8) -> bool {
    DIGIT_ZERO <= b <= DIGIT_NINE
}

/// Tells whether a byte is blank.
pub fn blank(b: u8) -> (r: bool)
    ensures
        r == is_blank(b),
{
    b == SPACE || b == TAB || b == LINE_FEED || b == CARRIAGE_RETURN
}

/// Tells whether a byte may stand in a word.
pub fn letter(b: u8) -> (r: bool)
    ensures
        r == is_letter(b),
{
    (LOWER_A <= b && b <= LOWER_Z) || (UPPER_A <= b && b <= UPPER_Z) || b == UNDERSCORE
}

/// Tells whether a byte is an ASCII digit.
pub fn digit(b: u8) -> (r: bool)
    ensures
        r == is_digit(b),
{
    DIGIT_ZERO <= b && b <= DIGIT_NINE
}

} // verus!
