//! Composing a banner: the checks, the background and the pictures.

use vstd::prelude::*;
use crate::canvas::{addressable, filled, Canvas, Raster};
use crate::color::{get_color, parsed_color};
use crate::embed::{embed_image, embedded};
use crate::error::RenderError;
use crate::model::{Banner, Embed};

verus! {

/// The largest number of bytes that a headline may have.
pub const TEXT_LIMIT: usize = 90;

/// The length of a text as it is counted against the limit: the number of
/// its bytes in UTF-8, as a machine word.
pub open spec fn text_length(text: Seq<char>) -> usize {
    vstd::utf8::encode_utf8(text).len() as usize
}

/// The picture that was handed in for the embed with this index, if any.
pub open spec fn picture_at(images: Seq<Option<Canvas>>, index: int) -> Option<Raster> {
    if 0 <= index < images.len() {
        match images[index] {
            Some(picture) => Some(picture@),
            None => None,
        }
    } else {
        None
    }
}

/// The canvas of a banner before anything is placed on it.
pub open spec fn background_of(banner: Banner) -> Result<Raster, RenderError> {
    if !addressable(banner.width as nat, banner.height as nat) {
        Err(RenderError::CanvasTooLarge)
    } else {
        match parsed_color(banner.background_color@) {
            Err(error) => Err(error),
            Ok(color) => Ok(filled(banner.width as nat, banner.height as nat, color)),
        }
    }
}

/// The canvas after the first `count` pictures were embedded in their
/// order, or the failure of the first picture that could not be.
pub open spec fn with_embeds(
    base: Raster,
    embeds: Seq<Embed>,
    images: Seq<Option<Canvas>>,
    count: nat,
) -> Result<Raster, RenderError>
    decreases count,
{
    if count == 0 {
        Ok(base)
    } else {
        let index = (count - 1) as nat;
        match with_embeds(base, embeds, images, index) {
            Err(error) => Err(error),
            Ok(raster) => match embedded(
                raster,
                picture_at(images, index as int),
                embeds[index as int].x as int,
                embeds[index as int].y as int,
                embeds[index as int].width,
            ) {
                Ok(next) => Ok(next),
                Err(error) => Err(RenderError::Embed { index: index as usize, error }),
            },
        }
    }
}

/// The banner before its text is drawn, or why none is produced.
pub open spec fn composed(banner: Banner, images: Seq<Option<Canvas>>) -> Result<
    Raster,
    RenderError,
> {
    if text_length(banner.text@) > TEXT_LIMIT {
        Err(RenderError::TextTooLong)
    } else {
        match background_of(banner) {
            Err(error) => Err(error),
            Ok(base) => with_embeds(base, banner.embed@, images, banner.embed@.len()),
        }
    }
}

/// Checks the one rule that a banner must meet before anything is drawn:
/// its headline is no longer than the limit.
pub fn validate(banner: &Banner) -> (result: Result<(), RenderError>)
    ensures
        text_length(banner.text@) > TEXT_LIMIT ==> result == Err::<(), RenderError>(
            RenderError::TextTooLong,
        ),
        text_length(banner.text@) <= TEXT_LIMIT ==> result is Ok,
{
    if banner.text.as_str().len() > TEXT_LIMIT {
        Err(RenderError::TextTooLong)
    } else {
        Ok(())
    }
}

/// Makes the canvas of a banner: its size, every pixel in the colour of the
/// background.
pub fn create_image(banner: &Banner) -> (result: Result<Canvas, RenderError>)
    ensures
        match background_of(*banner) {
            Ok(raster) => result is Ok && result.unwrap().wf() && result.unwrap()@ == raster,
            Err(error) => result == Err::<Canvas, RenderError>(error),
        },
{
    assert(banner.width * banner.height <= u64::MAX) by (nonlinear_arith)
        requires
            banner.width <= u32::MAX,
            banner.height <= u32::MAX,
    ;
    let pixels: u64 = banner.width as u64 * banner.height as u64;
    if pixels > (isize::MAX as u64) / 4 {
        return Err(RenderError::CanvasTooLarge);
    }
    match get_color(banner.background_color.as_str()) {
        Err(error) => Err(error),
        Ok(color) => Ok(Canvas::new(banner.width, banner.height, color)),
    }
}

/// Once a picture has failed, embedding more pictures changes nothing: the
/// first failure is the one that is reported.
pub proof fn lemma_first_failure_stays(
    base: Raster,
    embeds: Seq<Embed>,
    images: Seq<Option<Canvas>>,
    failed: nat,
    count: nat,
)
    requires
        with_embeds(base, embeds, images, failed) is Err,
        failed <= count,
    ensures
        with_embeds(base, embeds, images, count) == with_embeds(base, embeds, images, failed),
    decreases count,
{
    if count > failed {
        lemma_first_failure_stays(base, embeds, images, failed, (count - 1) as nat);
    }
}

/// Composes a banner up to its text: checks the headline against the limit,
/// makes the canvas in the colour of the background and embeds the pictures
/// in their order, each over what was there before.
///
/// `images` holds, for each picture that the banner names, the decoded
/// picture, or nothing where it could not be read; a picture that is
/// missing from `images` counts as one that could not be read. The first
/// failure ends the work and no canvas is handed out.
pub fn draw_image(banner: &Banner, images: &Vec<Option<Canvas>>) -> (result: Result<
    Canvas,
    RenderError,
>)
    requires
        forall|i: int|
            0 <= i < images@.len() && (#[trigger] images@[i]) is Some ==> images@[i].unwrap().wf(),
    ensures
        match composed(*banner, images@) {
            Ok(raster) => result is Ok && result.unwrap().wf() && result.unwrap()@ == raster,
            Err(error) => result == Err::<Canvas, RenderError>(error),
        },
        text_length(banner.text@) > TEXT_LIMIT ==> result == Err::<Canvas, RenderError>(
            RenderError::TextTooLong,
        ),
{
    match validate(banner) {
        Err(error) => {
            return Err(error);
        },
        Ok(()) => {},
    }
    let mut canvas = match create_image(banner) {
        Err(error) => {
            return Err(error);
        },
        Ok(canvas) => canvas,
    };
    let ghost base = canvas@;
    let count: usize = banner.embed.len();
    let mut index: usize = 0;
    while index < count
        invariant
            canvas.wf(),
            text_length(banner.text@) <= TEXT_LIMIT,
            background_of(*banner) == Ok::<Raster, RenderError>(base),
            count == banner.embed@.len(),
            index <= count,
            with_embeds(base, banner.embed@, images@, index as nat) == Ok::<Raster, RenderError>(
                canvas@,
            ),
            forall|i: int|
                0 <= i < images@.len() && (#[trigger] images@[i]) is Some
                    ==> images@[i].unwrap().wf(),
        decreases count - index,
    {
        let embed = &banner.embed[index];
        let outcome = if index < images.len() {
            match &images[index] {
                Some(picture) => embed_image(&mut canvas, Some(picture), embed.x, embed.y, embed.width),
                None => embed_image(&mut canvas, None, embed.x, embed.y, embed.width),
            }
        } else {
            embed_image(&mut canvas, None, embed.x, embed.y, embed.width)
        };
        match outcome {
            Err(error) => {
                proof {
                    assert(with_embeds(base, banner.embed@, images@, (index + 1) as nat) == Err::<
                        Raster,
                        RenderError,
                    >(RenderError::Embed { index, error }));
                    lemma_first_failure_stays(
                        base,
                        banner.embed@,
                        images@,
                        (index + 1) as nat,
                        count as nat,
                    );
                }
                return Err(RenderError::Embed { index, error });
            },
            Ok(()) => {},
        }
        index = index + 1;
    }
    Ok(canvas)
}

} // verus!
