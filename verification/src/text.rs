//! Text building: appending to a string, and a byte in two hexadecimal
//! digits.

use vstd::prelude::*;

verus! {

/// `String::push` of std appends one character to the string: the text
/// afterwards is the text before with `ch` behind it.
pub assume_specification[ std::string::String::push ](s: &mut std::string::String, ch: char)
    ensures
        final(s)@ == old(s)@.push(ch),
;

/// The lower-case hexadecimal digit of a value below 16: `'0'` is 48, and
/// `'a'` is 87 more than the 10 it stands for.
pub open spec fn hex_digit(value: u8) -> char
    recommends
        value < 16,
{
    if value < 10 {
        (48 + value) as char
    } else {
        (87 + value) as char
    }
}

/// A byte in lower-case hexadecimal, two characters wide: a value below 16
/// has a blank before its one digit.
pub open spec fn hex_pair(value: u8) -> Seq<char> {
    seq![
        if value < 16 {
            ' '
        } else {
            hex_digit(value / 16)
        },
        hex_digit(value % 16),
    ]
}

/// The lower-case hexadecimal digit of a value below 16.
fn hex_digit_of(value: u8) -> (digit: char)
    requires
        value < 16,
    ensures
        digit == hex_digit(value),
{
    if value < 10 {
        (48 + value) as char
    } else {
        (87 + value) as char
    }
}

/// Appends a byte in lower-case hexadecimal, two characters wide.
pub fn push_hex_pair(text: &mut String, value: u8)
    ensures
        final(text)@ == old(text)@ + hex_pair(value),
{
    if value < 16 {
        text.push(' ');
    } else {
        text.push(hex_digit_of(value / 16));
    }
    text.push(hex_digit_of(value % 16));
    assert(text@ =~= old(text)@ + hex_pair(value));
}

} // verus!
