//! The description of a banner.

use vstd::prelude::*;

verus! {

/// A picture to be embedded in the banner.
#[derive(Debug, Clone)]
pub struct Embed {
    /// Where the picture is found, relative to the description.
    pub file: String,
    /// The column of the picture's left edge.
    pub x: u32,
    /// The row of the picture's top edge.
    pub y: u32,
    /// The width to scale the picture to, proportions kept. Without one the
    /// picture keeps its size.
    pub width: Option<u32>,
}

/// A line of text at a place of its own.
#[derive(Debug, Clone)]
pub struct Text {
    pub text: String,
    pub x: u32,
    pub y: u32,
    /// Whether the text reads from right to left. Then `x` is its right edge.
    pub rtl: bool,
    /// The colour of the text, as six or eight hexadecimal digits.
    pub color: String,
    /// The size of the font.
    pub size: i32,
}

/// All that describes one banner.
#[derive(Debug, Clone)]
pub struct Banner {
    /// The width of the banner in pixels.
    pub width: u32,
    /// The height of the banner in pixels.
    pub height: u32,
    /// The headline, wrapped and centred.
    pub text: String,
    /// The size of the headline's font.
    pub size: i32,
    /// The colour of the background, as six or eight hexadecimal digits.
    pub background_color: String,
    /// The pictures, in the order in which they are placed.
    pub embed: Vec<Embed>,
    /// The positioned lines, in the order in which they are drawn.
    pub lines: Vec<Text>,
}

/// A line reads from left to right unless it says otherwise.
pub fn default_false() -> (value: bool)
    ensures
        !value,
{
    false
}

/// The size of a font that none was given for.
pub fn default_font_size() -> (size: i32)
    ensures
        size == 24,
{
    24
}

/// The colour of text that none was given for: opaque black.
pub fn default_black() -> (color: String)
    ensures
        color@ == "000000FF"@,
{
    "000000FF".to_owned()
}

/// The colour of a background that none was given for: opaque white.
pub fn default_white() -> (color: String)
    ensures
        color@ == "FFFFFF"@,
{
    "FFFFFF".to_owned()
}

/// A banner has no pictures unless it names some.
pub fn default_embed() -> (embed: Vec<Embed>)
    ensures
        embed@.len() == 0,
{
    Vec::new()
}

/// A banner has no positioned lines unless it names some.
pub fn default_lines() -> (lines: Vec<Text>)
    ensures
        lines@.len() == 0,
{
    Vec::new()
}

} // verus!
