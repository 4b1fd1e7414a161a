//! Wrapping the headline and placing text.
//!
//! Measuring and drawing glyphs is done by the program around this library.
//! What is decided here is where each run of text starts, from the sizes
//! that were measured.

use vstd::prelude::*;
use crate::color::{color_of, get_color, is_hex_color, parsed_color, Color};
use crate::error::RenderError;
use crate::model::Text;

verus! {

/// The width, in columns, that the headline is wrapped to.
pub const WRAP_WIDTH: usize = 30;

/// The room, in pixels, that each line of the headline gets beyond the
/// measured height of the text.
pub const LINE_PADDING: u32 = 10;

/// The colour that the headline is drawn in: opaque black.
pub open spec fn headline_color_of() -> Color {
    Color { red: 0, green: 0, blue: 0, alpha: 255 }
}

/// The colour that the headline is drawn in.
pub fn headline_color() -> (color: Color)
    ensures
        color == headline_color_of(),
{
    Color { red: 0, green: 0, blue: 0, alpha: 255 }
}

/// Where a run of text starts and the colour it is drawn in.
#[derive(Clone, Copy, Debug, PartialEq, Eq, Structural)]
pub struct Placement {
    /// The column of the left edge of the run.
    pub x: i32,
    /// The row of the top edge of the run.
    pub y: i32,
    pub color: Color,
}

/// The lines that `textwrap::wrap` breaks `text` into for lines of `width`
/// columns, breaking at spaces only, filling each line before the next is
/// begun, and leaving words that are longer than a line whole.
pub uninterp spec fn wrapped_lines(text: Seq<char>, width: nat) -> Seq<Seq<char>>;

/// Calls `textwrap::wrap` with first-fit line breaking, words separated at
/// ASCII spaces, no splitting at hyphens and no breaking of long words. The
/// lines depend on the text and the width alone; the contract names them.
#[verifier::external_body]
fn wrap(text: &str, width: usize) -> (lines: Vec<String>)
    ensures
        lines@.len() == wrapped_lines(text@, width as nat).len(),
        forall|i: int| 0 <= i < lines@.len() ==> (#[trigger] lines@[i])@ == wrapped_lines(
            text@,
            width as nat,
        )[i],
{
    let options = textwrap::Options::new(width)
        .break_words(false)
        .word_separator(textwrap::WordSeparator::AsciiSpace)
        .word_splitter(textwrap::WordSplitter::NoHyphenation)
        .wrap_algorithm(textwrap::WrapAlgorithm::FirstFit);
    textwrap::wrap(text, options).into_iter().map(|line| line.into_owned()).collect()
}

/// Breaks the headline into the lines it is drawn in.
pub fn wrap_headline(text: &str) -> (lines: Vec<String>)
    ensures
        lines@.len() == wrapped_lines(text@, WRAP_WIDTH as nat).len(),
        forall|i: int| 0 <= i < lines@.len() ==> (#[trigger] lines@[i])@ == wrapped_lines(
            text@,
            WRAP_WIDTH as nat,
        )[i],
{
    wrap(text, WRAP_WIDTH)
}

/// Calls `String::from_iter` on the characters: the string holds them in
/// their order.
#[verifier::external_body]
fn string_of(chars: Vec<char>) -> (text: String)
    ensures
        text@ == chars@,
{
    String::from_iter(chars)
}

/// The text with its characters in the opposite order.
pub fn reverse(text: &str) -> (reversed: String)
    ensures
        reversed@ == text@.reverse(),
{
    let len: usize = text.unicode_len();
    let mut chars: Vec<char> = Vec::new();
    let mut i: usize = len;
    while i > 0
        invariant
            len == text@.len(),
            i <= len,
            chars@.len() == len - i,
            forall|j: int| 0 <= j < chars@.len() ==> chars@[j] == text@[len - 1 - j],
        decreases i,
    {
        i = i - 1;
        chars.push(text.get_char(i));
    }
    assert(chars@ =~= text@.reverse());
    string_of(chars)
}

/// The height of one line of the headline: the padding and the measured
/// height of the headline as a whole.
pub open spec fn line_height(text_height: u32) -> int {
    LINE_PADDING + text_height
}

/// The row at which the first line of the headline starts, so that the
/// block of lines is centred: each half is cut to a whole number.
pub open spec fn start_row(banner_height: u32, text_height: u32, lines: nat) -> int {
    banner_height / 2 - (line_height(text_height) * lines) / 2
}

/// The column at which a line starts that is centred in `max_width`.
pub open spec fn centred_column(max_width: u32, line_width: u32) -> int {
    (max_width - line_width) / 2
}

/// Where line `index` of the headline starts, or why the headline cannot be
/// placed.
pub open spec fn headline_origin_of(
    banner_height: u32,
    max_width: u32,
    text_height: u32,
    lines: nat,
    index: nat,
    line_width: u32,
) -> Result<(i32, i32), RenderError> {
    let start = start_row(banner_height, text_height, lines);
    let row = start + index * line_height(text_height);
    if start < 0 || line_width > max_width {
        Err(RenderError::HeadlineTooLarge)
    } else if row > i32::MAX {
        Err(RenderError::OriginOutOfRange)
    } else {
        Ok((centred_column(max_width, line_width) as i32, row as i32))
    }
}

/// Where a positioned line starts, or why it cannot be placed. A line that
/// reads from right to left is anchored at its right edge.
pub open spec fn line_origin_of(line: usize, x: u32, y: u32, rtl: bool, width: u32) -> Result<
    (i32, i32),
    RenderError,
> {
    let left = if rtl {
        x - width
    } else {
        x as int
    };
    if rtl && x < width {
        Err(RenderError::RtlBoundsError { line, x, width })
    } else if left > i32::MAX || y > i32::MAX {
        Err(RenderError::OriginOutOfRange)
    } else {
        Ok((left as i32, y as i32))
    }
}

/// Decides where line `index` of a headline of `lines` lines starts.
///
/// `text_height` is the measured height of the unwrapped headline, which
/// all lines share; `line_width` is the measured width of this line. The
/// block of lines is centred between top and bottom and each line between
/// left and right, all halves cut to whole numbers.
pub fn headline_origin(
    banner_height: u32,
    max_width: u32,
    text_height: u32,
    lines: usize,
    index: usize,
    line_width: u32,
) -> (result: Result<(i32, i32), RenderError>)
    requires
        index < lines,
    ensures
        result == headline_origin_of(
            banner_height,
            max_width,
            text_height,
            lines as nat,
            index as nat,
            line_width,
        ),
{
    let height: u128 = LINE_PADDING as u128 + text_height as u128;
    assert(height * lines <= u128::MAX && height * index <= height * lines) by (nonlinear_arith)
        requires
            height <= 0x1_0000_0009,
            lines <= u64::MAX,
            0 <= index < lines,
    ;
    let half_block: u128 = (height * lines as u128) / 2;
    let half_banner: u128 = (banner_height / 2) as u128;
    if half_block > half_banner || line_width > max_width {
        return Err(RenderError::HeadlineTooLarge);
    }
    let row: u128 = half_banner - half_block + height * index as u128;
    if row > i32::MAX as u128 {
        return Err(RenderError::OriginOutOfRange);
    }
    Ok((((max_width - line_width) / 2) as i32, row as i32))
}

/// Decides where a positioned line starts.
///
/// `width` is the measured width of the text as it is drawn, which for a
/// line that reads from right to left is the reversed text. Such a line is
/// anchored at its right edge: it starts `width` pixels to the left of `x`,
/// and is refused where that would be left of the canvas.
pub fn line_origin(line: usize, x: u32, y: u32, rtl: bool, width: u32) -> (result: Result<
    (i32, i32),
    RenderError,
>)
    ensures
        result == line_origin_of(line, x, y, rtl, width),
        rtl && x < width ==> result == Err::<(i32, i32), RenderError>(
            RenderError::RtlBoundsError { line, x, width },
        ),
        rtl && x == width && y <= i32::MAX ==> result == Ok::<(i32, i32), RenderError>(
            (0i32, y as i32),
        ),
{
    if rtl && x < width {
        return Err(RenderError::RtlBoundsError { line, x, width });
    }
    let left: u32 = if rtl {
        x - width
    } else {
        x
    };
    if left > i32::MAX as u32 || y > i32::MAX as u32 {
        return Err(RenderError::OriginOutOfRange);
    }
    Ok((left as i32, y as i32))
}

/// The characters of a positioned line in the order in which they are
/// drawn: turned round for a line that reads from right to left.
pub open spec fn line_text_of(line: Text) -> Seq<char> {
    if line.rtl {
        line.text@.reverse()
    } else {
        line.text@
    }
}

/// How a positioned line is drawn, or why it is not: the place is decided
/// first, then the colour is read.
pub open spec fn line_placement_of(index: usize, line: Text, width: u32) -> Result<
    Placement,
    RenderError,
> {
    match line_origin_of(index, line.x, line.y, line.rtl, width) {
        Err(error) => Err(error),
        Ok(origin) => match parsed_color(line.color@) {
            Err(error) => Err(error),
            Ok(color) => Ok(Placement { x: origin.0, y: origin.1, color }),
        },
    }
}

/// The text of a positioned line as it is measured and drawn.
pub fn line_text(line: &Text) -> (text: String)
    ensures
        text@ == line_text_of(*line),
{
    if line.rtl {
        reverse(line.text.as_str())
    } else {
        line.text.clone()
    }
}

/// Decides how the positioned line with this index is drawn.
///
/// `width` is the measured width of the line's text as [`line_text`] gives
/// it, at the line's size.
pub fn place_line(index: usize, line: &Text, width: u32) -> (result: Result<
    Placement,
    RenderError,
>)
    ensures
        result == line_placement_of(index, *line, width),
{
    match line_origin(index, line.x, line.y, line.rtl, width) {
        Err(error) => Err(error),
        Ok(origin) => match get_color(line.color.as_str()) {
            Err(error) => Err(error),
            Ok(color) => Ok(Placement { x: origin.0, y: origin.1, color }),
        },
    }
}

/// A line that reads from right to left is drawn with its characters turned
/// round and ends at its anchor. Where the anchor is exactly as far from the
/// left edge as the text is wide, the text starts at the left edge, in its
/// own row and colour; where the anchor is nearer to the left edge than
/// that, the line is refused.
pub proof fn lemma_rtl_anchor(index: usize, line: Text, width: u32)
    requires
        line.rtl,
        line.y <= i32::MAX,
        is_hex_color(line.color@),
    ensures
        line_text_of(line) == line.text@.reverse(),
        line.x == width ==> line_placement_of(index, line, width) == Ok::<Placement, RenderError>(
            Placement { x: 0, y: line.y as i32, color: color_of(line.color@) },
        ),
        line.x < width ==> line_placement_of(index, line, width) == Err::<Placement, RenderError>(
            RenderError::RtlBoundsError { line: index, x: line.x, width },
        ),
{
}

} // verus!
