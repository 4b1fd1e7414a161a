//! Colours and their hexadecimal notation.

use vstd::prelude::*;
use crate::error::RenderError;

verus! {

/// A colour with an alpha channel, eight bits per channel.
#[derive(Clone, Copy, Debug, PartialEq, Eq, Structural)]
pub struct Color {
    pub red: u8,
    pub green: u8,
    pub blue: u8,
    pub alpha: u8,
}

/// The alpha value of a pixel that hides what lies under it.
pub const OPAQUE: u8 = 255;

/// The value of a hexadecimal digit, for the characters that are one.
pub open spec fn hex_digit(c: char) -> Option<int> {
    if '0' <= c <= '9' {
        Some(c as int - '0' as int)
    } else if 'a' <= c <= 'f' {
        Some(c as int - 'a' as int + 10)
    } else if 'A' <= c <= 'F' {
        Some(c as int - 'A' as int + 10)
    } else {
        None
    }
}

/// A colour is written as six or eight hexadecimal digits.
pub open spec fn is_hex_color(s: Seq<char>) -> bool {
    &&& s.len() == 6 || s.len() == 8
    &&& forall|i: int| 0 <= i < s.len() ==> (#[trigger] hex_digit(s[i])) is Some
}

/// The value of the `k`-th pair of digits of `s`.
pub open spec fn hex_pair(s: Seq<char>, k: int) -> int {
    16 * hex_digit(s[2 * k]).unwrap() + hex_digit(s[2 * k + 1]).unwrap()
}

/// The colour that a well-formed notation stands for: red, green and blue
/// from the first three pairs, alpha from the fourth, opaque without one.
pub open spec fn color_of(s: Seq<char>) -> Color {
    Color {
        red: hex_pair(s, 0) as u8,
        green: hex_pair(s, 1) as u8,
        blue: hex_pair(s, 2) as u8,
        alpha: if s.len() == 8 { hex_pair(s, 3) as u8 } else { OPAQUE },
    }
}

/// What reading a colour gives: the colour, or `MalformedColor`.
pub open spec fn parsed_color(s: Seq<char>) -> Result<Color, RenderError> {
    if is_hex_color(s) {
        Ok(color_of(s))
    } else {
        Err(RenderError::MalformedColor)
    }
}

/// The value of one character as a hexadecimal digit.
fn digit_value(c: char) -> (value: Option<u8>)
    ensures
        match hex_digit(c) {
            Some(v) => value == Some(v as u8) && 0 <= v < 16,
            None => value is None,
        },
{
    let code: u32 = c as u32;
    if 48 <= code && code <= 57 {
        Some((code - 48) as u8)
    } else if 97 <= code && code <= 102 {
        Some((code - 97 + 10) as u8)
    } else if 65 <= code && code <= 70 {
        Some((code - 65 + 10) as u8)
    } else {
        None
    }
}

/// Reads a colour from its hexadecimal notation.
///
/// Six digits give red, green and blue of an opaque colour; eight digits
/// give the alpha channel as well. Anything else is rejected: no channel is
/// ever filled in for a notation that is not well formed.
pub fn get_color(color: &str) -> (result: Result<Color, RenderError>)
    ensures
        result == parsed_color(color@),
        result is Ok <==> is_hex_color(color@),
        result is Ok && color@.len() == 6 ==> result.unwrap().alpha == 255,
        result is Ok && color@.len() == 8 ==> result.unwrap().alpha == hex_pair(color@, 3),
{
    let len: usize = color.unicode_len();
    if len != 6 && len != 8 {
        return Err(RenderError::MalformedColor);
    }
    let mut channels: [u8; 4] = [0, 0, 0, OPAQUE];
    let mut k: usize = 0;
    while 2 * k < len
        invariant
            len == color@.len(),
            len == 6 || len == 8,
            k <= 4,
            2 * k <= len,
            forall|i: int| 0 <= i < 2 * k ==> (#[trigger] hex_digit(color@[i])) is Some,
            forall|j: int| 0 <= j < k ==> channels[j] == hex_pair(color@, j),
            k <= 3 ==> channels[3] == OPAQUE,
        decreases len - 2 * k,
    {
        let high = digit_value(color.get_char(2 * k));
        let low = digit_value(color.get_char(2 * k + 1));
        match (high, low) {
            (Some(h), Some(l)) => {
                channels[k] = 16 * h + l;
            },
            _ => {
                return Err(RenderError::MalformedColor);
            },
        }
        k = k + 1;
    }
    Ok(Color { red: channels[0], green: channels[1], blue: channels[2], alpha: channels[3] })
}

} // verus!
