//! Byte classes of the PDF lexical grammar.
use vstd::prelude::*;

verus! {

/// PDF white-space characters: NUL, TAB, LF, FF, CR and SPACE.
pub open spec fn is_white(b: u8) -> bool {
    b == 0x00 || b == 0x09 || b == 0x0a || b == 0x0c || b == 0x0d || b == 0x20
}

/// PDF delimiter characters: `( ) < > [ ] { } / %`.
pub open spec fn is_delim(b: u8) -> bool {
    b == 0x28 || b == 0x29 || b == 0x3c || b == 0x3e || b == 0x5b || b == 0x5d || b == 0x7b
        || b == 0x7d || b == 0x2f || b == 0x25
}

/// Regular characters: everything that is neither white space nor a delimiter.
pub open spec fn is_regular(b: u8) -> bool {
    !is_white(b) && !is_delim(b)
}

pub open spec fn is_digit(b: u8) -> bool {
    0x30 <= b <= 0x39
}

pub open spec fn is_hex_digit(b: u8) -> bool {
    is_digit(b) || (0x41 <= b <= 0x46) || (0x61 <= b <= 0x66)
}

pub open spec fn hex_value(b: u8) -> u8 {
    if is_digit(b) {
        (b - 0x30) as u8
    } else if 0x41 <= b <= 0x46 {
        (b - 0x41 + 10) as u8
    } else {
        (b - 0x61 + 10) as u8
    }
}

pub fn white(b: u8) -> (r: bool)
    ensures
        r == is_white(b),
{
    b == 0x00 || b == 0x09 || b == 0x0a || b == 0x0c || b == 0x0d || b == 0x20
}

pub fn delim(b: u8) -> (r: bool)
    ensures
        r == is_delim(b),
{
    b == 0x28 || b == 0x29 || b == 0x3c || b == 0x3e || b == 0x5b || b == 0x5d || b == 0x7b
        || b == 0x7d || b == 0x2f || b == 0x25
}

pub fn regular(b: u8) -> (r: bool)
    ensures
        r == is_regular(b),
{
    !white(b) && !delim(b)
}

pub fn digit(b: u8) -> (r: bool)
    ensures
        r == is_digit(b),
{
    0x30 <= b && b <= 0x39
}

pub fn hex_digit(b: u8) -> (r: bool)
    ensures
        r == is_hex_digit(b),
{
    digit(b) || (0x41 <= b && b <= 0x46) || (0x61 <= b && b <= 0x66)
}

pub fn hex_digit_value(b: u8) -> (r: u8)
    requires
        is_hex_digit(b),
    ensures
        r == hex_value(b),
        r < 16,
{
    if digit(b) {
        b - 0x30
    } else if 0x41 <= b && b <= 0x46 {
        b - 0x41 + 10
    } else {
        b - 0x61 + 10
    }
}

} // verus!
