//! Placing a picture on the canvas.

use vstd::prelude::*;
use crate::canvas::{
    lemma_offset_bounds, resized_pixels, scaling_addressable, Canvas, Raster,
};
use crate::color::OPAQUE;
use crate::error::{Axis, EmbedError};

verus! {

/// Whether pixel `(px, py)` of the canvas lies under the picture placed at
/// `(x, y)` and the picture is opaque there.
pub open spec fn covered(source: Raster, x: int, y: int, px: int, py: int) -> bool {
    &&& source.contains(px - x, py - y)
    &&& source.pixel(px - x, py - y).alpha == OPAQUE
}

/// Byte `i` of the canvas after the picture was placed with its top left
/// corner at `(x, y)`: the picture's byte where the picture is opaque, the
/// canvas' own byte everywhere else.
pub open spec fn overlaid_byte(base: Raster, source: Raster, x: int, y: int, i: int) -> u8 {
    let px = (i / 4) % (base.width as int);
    let py = (i / 4) / (base.width as int);
    if covered(source, x, y, px, py) {
        source.data[source.offset(px - x, py - y) + i % 4]
    } else {
        base.data[i]
    }
}

/// The canvas after the picture was placed on it through its alpha mask.
pub open spec fn overlaid(base: Raster, source: Raster, x: int, y: int) -> Raster {
    Raster {
        width: base.width,
        height: base.height,
        data: Seq::new(base.data.len(), |i: int| overlaid_byte(base, source, x, y, i)),
    }
}

/// What placing a picture gives: the error that names the dimension in which
/// it does not fit, the width first, or nothing where it fits.
pub open spec fn fit_error(base: Raster, source: Raster, x: int, y: int) -> Option<EmbedError> {
    if x + source.width > base.width {
        Some(
            EmbedError::FitError {
                axis: Axis::Width,
                offset: x as u32,
                size: source.width as u32,
                available: base.width as u32,
            },
        )
    } else if y + source.height > base.height {
        Some(
            EmbedError::FitError {
                axis: Axis::Height,
                offset: y as u32,
                size: source.height as u32,
                available: base.height as u32,
            },
        )
    } else {
        None
    }
}

/// The height that goes with a target width when the proportions of the
/// source are kept: the quotient is cut, not rounded.
pub open spec fn target_height(source_width: nat, source_height: nat, width: nat) -> nat {
    if source_width == 0 {
        0
    } else {
        (width * source_height) / source_width
    }
}

/// Whether a picture can be scaled to the width `width`: it has columns to
/// scale from, the height that goes with the width fits in 32 bits, and the
/// buffers that scaling goes through can be addressed.
pub open spec fn scalable(source: Raster, width: u32) -> bool {
    let height = target_height(source.width, source.height, width as nat);
    &&& source.width > 0
    &&& height <= u32::MAX
    &&& scaling_addressable(source.width, width as nat, height)
}

/// The picture scaled to the width `width`: exactly that wide, as high as
/// keeps its proportions, with the pixels that the scaler gives.
pub open spec fn scaled_to(source: Raster, width: u32) -> Raster {
    let height = target_height(source.width, source.height, width as nat);
    Raster {
        width: width as nat,
        height,
        data: resized_pixels(source, width, height as u32),
    }
}

/// The picture at its effective size: scaled where a width is asked for and
/// the picture can be scaled, as it is where none is asked for.
pub open spec fn effective(source: Raster, width: Option<u32>) -> Result<Raster, EmbedError> {
    match width {
        None => Ok(source),
        Some(w) => if scalable(source, w) {
            Ok(scaled_to(source, w))
        } else {
            Err(EmbedError::ScaleError)
        },
    }
}

/// The canvas after embedding, or why the picture was not embedded.
pub open spec fn embedded(
    base: Raster,
    source: Option<Raster>,
    x: int,
    y: int,
    width: Option<u32>,
) -> Result<Raster, EmbedError> {
    match source {
        None => Err(EmbedError::LoadError),
        Some(picture) => match effective(picture, width) {
            Err(error) => Err(error),
            Ok(scaled) => match fit_error(base, scaled, x, y) {
                Some(error) => Err(error),
                None => Ok(overlaid(base, scaled, x, y)),
            },
        },
    }
}

/// Byte `i` of the canvas while the picture is being placed: the rows above
/// `row` and the first `col` pixels of row `row` have been dealt with.
pub open spec fn partly_overlaid_byte(
    base: Raster,
    source: Raster,
    x: int,
    y: int,
    row: int,
    col: int,
    i: int,
) -> u8 {
    let px = (i / 4) % (base.width as int);
    let py = (i / 4) / (base.width as int);
    if covered(source, x, y, px, py) && (py - y < row || (py - y == row && px - x < col)) {
        source.data[source.offset(px - x, py - y) + i % 4]
    } else {
        base.data[i]
    }
}

/// The pixel that byte `i` of a well-formed raster belongs to.
proof fn lemma_pixel_of_byte(r: Raster, i: int)
    requires
        r.wf(),
        0 <= i < r.data.len(),
    ensures
        r.contains((i / 4) % (r.width as int), (i / 4) / (r.width as int)),
        r.offset((i / 4) % (r.width as int), (i / 4) / (r.width as int)) + i % 4 == i,
{
    let w = r.width as int;
    let h = r.height as int;
    let p = i / 4;
    assert(w > 0) by (nonlinear_arith)
        requires
            0 <= i < 4 * (w * h),
            w >= 0,
            h >= 0,
    ;
    assert(0 <= p < w * h);
    vstd::arithmetic::div_mod::lemma_fundamental_div_mod(p, w);
    vstd::arithmetic::div_mod::lemma_div_pos_is_pos(p, w);
    assert(p / w < h) by (nonlinear_arith)
        requires
            0 <= p < w * h,
            w > 0,
            p == w * (p / w) + p % w,
            0 <= p % w < w,
    ;
    assert(w * (p / w) == (p / w) * w) by (nonlinear_arith);
}

/// Places `source` on the canvas with its top left corner at `(x, y)`.
///
/// A picture that reaches over the canvas is refused and the canvas stays as
/// it was: nothing is clipped. Where it fits, its alpha channel is a mask: a
/// pixel of the picture replaces the pixel under it if it is fully opaque,
/// and leaves it untouched otherwise. Nothing is blended.
pub fn place_image(canvas: &mut Canvas, source: &Canvas, x: u32, y: u32) -> (result: Result<
    (),
    EmbedError,
>)
    requires
        old(canvas).wf(),
        source.wf(),
    ensures
        final(canvas).wf(),
        match fit_error(old(canvas)@, source@, x as int, y as int) {
            Some(error) => result == Err::<(), EmbedError>(error) && final(canvas)@ == old(canvas)@,
            None => result is Ok && final(canvas)@ == overlaid(
                old(canvas)@,
                source@,
                x as int,
                y as int,
            ),
        },
        x + source@.width > old(canvas)@.width ==> result is Err,
        result is Ok ==> forall|sx: int, sy: int| #[trigger]
            source@.contains(sx, sy) ==> final(canvas)@.pixel(x + sx, y + sy) == (if source@.pixel(
                sx,
                sy,
            ).alpha == OPAQUE {
                source@.pixel(sx, sy)
            } else {
                old(canvas)@.pixel(x + sx, y + sy)
            }),
{
    let width = canvas.width();
    let height = canvas.height();
    let source_width = source.width();
    let source_height = source.height();
    if x as u64 + source_width as u64 > width as u64 {
        return Err(
            EmbedError::FitError { axis: Axis::Width, offset: x, size: source_width, available: width },
        );
    }
    if y as u64 + source_height as u64 > height as u64 {
        return Err(
            EmbedError::FitError {
                axis: Axis::Height,
                offset: y,
                size: source_height,
                available: height,
            },
        );
    }
    let ghost base = canvas@;
    let ghost picture = source@;
    let mut sy: u32 = 0;
    while sy < source_height
        invariant
            canvas.wf(),
            source.wf(),
            picture == source@,
            base.wf(),
            canvas@.width == base.width == width,
            canvas@.height == base.height == height,
            canvas@.data.len() == base.data.len(),
            source_width == picture.width,
            source_height == picture.height,
            x + source_width <= width,
            y + source_height <= height,
            sy <= source_height,
            forall|i: int|
                0 <= i < base.data.len() ==> canvas@.data[i] == #[trigger] partly_overlaid_byte(
                    base,
                    picture,
                    x as int,
                    y as int,
                    sy as int,
                    0,
                    i,
                ),
        decreases source_height - sy,
    {
        let mut sx: u32 = 0;
        while sx < source_width
            invariant
                canvas.wf(),
                source.wf(),
                picture == source@,
                base.wf(),
                canvas@.width == base.width == width,
                canvas@.height == base.height == height,
                canvas@.data.len() == base.data.len(),
                source_width == picture.width,
                source_height == picture.height,
                x + source_width <= width,
                y + source_height <= height,
                sy < source_height,
                sx <= source_width,
                forall|i: int|
                    0 <= i < base.data.len() ==> canvas@.data[i] == #[trigger] partly_overlaid_byte(
                        base,
                        picture,
                        x as int,
                        y as int,
                        sy as int,
                        sx as int,
                        i,
                    ),
            decreases source_width - sx,
        {
            let color = source.get(sx, sy);
            let ghost before = canvas@;
            if color.alpha == OPAQUE {
                canvas.set(x + sx, y + sy, color);
            }
            proof {
                let tx = x + sx;
                let ty = y + sy;
                lemma_offset_bounds(base.width, base.height, tx, ty);
                assert forall|i: int| 0 <= i < base.data.len() implies canvas@.data[i]
                    == #[trigger] partly_overlaid_byte(
                    base,
                    picture,
                    x as int,
                    y as int,
                    sy as int,
                    sx + 1,
                    i,
                ) by {
                    lemma_pixel_of_byte(base, i);
                    let px = (i / 4) % (base.width as int);
                    let py = (i / 4) / (base.width as int);
                    assert(before.data[i] == partly_overlaid_byte(
                        base,
                        picture,
                        x as int,
                        y as int,
                        sy as int,
                        sx as int,
                        i,
                    ));
                    if px == tx && py == ty {
                        assert(before.offset(tx, ty) <= i < before.offset(tx, ty) + 4);
                    } else {
                        lemma_offset_distinct(base.width as int, px, py, tx, ty);
                    }
                };
            }
            sx = sx + 1;
        }
        proof {
            assert forall|i: int| 0 <= i < base.data.len() implies canvas@.data[i]
                == #[trigger] partly_overlaid_byte(
                base,
                picture,
                x as int,
                y as int,
                sy + 1,
                0,
                i,
            ) by {
                lemma_pixel_of_byte(base, i);
                assert(canvas@.data[i] == partly_overlaid_byte(
                    base,
                    picture,
                    x as int,
                    y as int,
                    sy as int,
                    source_width as int,
                    i,
                ));
            };
        }
        sy = sy + 1;
    }
    proof {
        assert forall|i: int| 0 <= i < base.data.len() implies canvas@.data[i] == overlaid_byte(
            base,
            picture,
            x as int,
            y as int,
            i,
        ) by {
            lemma_pixel_of_byte(base, i);
            assert(canvas@.data[i] == partly_overlaid_byte(
                base,
                picture,
                x as int,
                y as int,
                source_height as int,
                0,
                i,
            ));
        };
        assert(canvas@.data =~= overlaid(base, picture, x as int, y as int).data);
        lemma_overlaid_pixels(base, picture, x as int, y as int);
        assert forall|sx: int, sy: int| #[trigger] picture.contains(sx, sy) implies canvas@.pixel(
            x + sx,
            y + sy,
        ) == (if picture.pixel(sx, sy).alpha == OPAQUE {
            picture.pixel(sx, sy)
        } else {
            base.pixel(x + sx, y + sy)
        }) by {
            assert(base.contains(x + sx, y + sy));
            assert(x + sx - x == sx && y + sy - y == sy);
        };
    }
    Ok(())
}

/// Scales a picture to the width `width`, keeping its proportions: the
/// picture that comes back is exactly `width` wide and
/// `width * source.height / source.width` high, the quotient cut to a whole
/// number. Its pixels are picked from the source by the nearest-neighbour
/// filter.
pub fn resize_image(source: &Canvas, width: u32) -> (result: Result<Canvas, EmbedError>)
    requires
        source.wf(),
    ensures
        scalable(source@, width) ==> result is Ok && result.unwrap().wf() && result.unwrap()@
            == scaled_to(source@, width),
        result is Ok ==> result.unwrap()@.width == width && result.unwrap()@.height
            == (width * source@.height) / (source@.width as int),
        !scalable(source@, width) ==> result == Err::<Canvas, EmbedError>(EmbedError::ScaleError),
{
    let source_width = source.width();
    let source_height = source.height();
    if source_width == 0 {
        return Err(EmbedError::ScaleError);
    }
    assert(width * source_height <= u64::MAX) by (nonlinear_arith)
        requires
            width <= u32::MAX,
            source_height <= u32::MAX,
    ;
    let height: u64 = (width as u64 * source_height as u64) / (source_width as u64);
    if height > u32::MAX as u64 {
        return Err(EmbedError::ScaleError);
    }
    assert(16 * (source_width * height) <= u128::MAX && 4 * (width * height) <= u128::MAX
        && source_width * height <= u128::MAX && width * height <= u128::MAX) by (nonlinear_arith)
        requires
            source_width <= u32::MAX,
            width <= u32::MAX,
            0 <= height <= u32::MAX,
    ;
    let limit: u128 = isize::MAX as u128;
    let through: u128 = 16 * (source_width as u128 * height as u128);
    let out: u128 = 4 * (width as u128 * height as u128);
    if through > limit || out > limit {
        return Err(EmbedError::ScaleError);
    }
    Ok(source.scaled(width, height as u32))
}

/// Embeds a picture in the canvas with its top left corner at
/// `(start_x, start_y)`.
///
/// `source` is the decoded picture, or nothing where it could not be read.
/// With a `width` the picture is first scaled to it. The picture must then
/// lie within the canvas; where it does not, the error names the dimension
/// and the canvas stays as it was. Where it does, the picture is placed
/// through its alpha mask.
pub fn embed_image(
    img: &mut Canvas,
    source: Option<&Canvas>,
    start_x: u32,
    start_y: u32,
    width: Option<u32>,
) -> (result: Result<(), EmbedError>)
    requires
        old(img).wf(),
        source is Some ==> source.unwrap().wf(),
    ensures
        final(img).wf(),
        match embedded(
            old(img)@,
            match source {
                Some(picture) => Some(picture@),
                None => None,
            },
            start_x as int,
            start_y as int,
            width,
        ) {
            Ok(raster) => result is Ok && final(img)@ == raster,
            Err(error) => result == Err::<(), EmbedError>(error) && final(img)@ == old(img)@,
        },
{
    match source {
        None => Err(EmbedError::LoadError),
        Some(picture) => match width {
            None => place_image(img, picture, start_x, start_y),
            Some(w) => match resize_image(picture, w) {
                Err(error) => Err(error),
                Ok(scaled) => place_image(img, &scaled, start_x, start_y),
            },
        },
    }
}

/// Different pixels of a raster start at offsets at least four apart.
proof fn lemma_offset_distinct(w: int, px: int, py: int, tx: int, ty: int)
    requires
        0 <= px < w,
        0 <= tx < w,
        0 <= py,
        0 <= ty,
        px != tx || py != ty,
    ensures
        py * w + px != ty * w + tx,
{
    if py * w + px == ty * w + tx {
        vstd::arithmetic::div_mod::lemma_fundamental_div_mod_converse(py * w + px, w, py, px);
        vstd::arithmetic::div_mod::lemma_fundamental_div_mod_converse(ty * w + tx, w, ty, tx);
    }
}

/// The alpha mask, pixel by pixel: under a fully opaque pixel of the picture
/// the canvas takes the picture's pixel; under any other pixel of the
/// picture, and everywhere beside the picture, it keeps its own.
pub proof fn lemma_overlaid_pixels(base: Raster, source: Raster, x: int, y: int)
    requires
        base.wf(),
        source.wf(),
        0 <= x,
        0 <= y,
    ensures
        forall|px: int, py: int| #[trigger]
            base.contains(px, py) ==> overlaid(base, source, x, y).pixel(px, py) == (if covered(
                source,
                x,
                y,
                px,
                py,
            ) {
                source.pixel(px - x, py - y)
            } else {
                base.pixel(px, py)
            }),
{
    let out = overlaid(base, source, x, y);
    assert forall|px: int, py: int| #[trigger] base.contains(px, py) implies out.pixel(px, py) == (
    if covered(source, x, y, px, py) {
        source.pixel(px - x, py - y)
    } else {
        base.pixel(px, py)
    }) by {
        lemma_offset_bounds(base.width, base.height, px, py);
        let at = base.offset(px, py);
        assert(out.offset(px, py) == at);
        assert((at + 0) / 4 == py * base.width + px && (at + 0) % 4 == 0);
        assert((at + 1) / 4 == py * base.width + px && (at + 1) % 4 == 1);
        assert((at + 2) / 4 == py * base.width + px && (at + 2) % 4 == 2);
        assert((at + 3) / 4 == py * base.width + px && (at + 3) % 4 == 3);
        assert(out.data[at] == overlaid_byte(base, source, x, y, at));
        assert(out.data[at + 1] == overlaid_byte(base, source, x, y, at + 1));
        assert(out.data[at + 2] == overlaid_byte(base, source, x, y, at + 2));
        assert(out.data[at + 3] == overlaid_byte(base, source, x, y, at + 3));
    };
}

} // verus!
