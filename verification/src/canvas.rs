//! The pixel buffer that a banner is composed on.

use vstd::prelude::*;
use crate::color::Color;

verus! {

/// A raster of pixels as a mathematical value: its dimensions and its bytes,
/// row by row from the top, four bytes per pixel in the order red, green,
/// blue, alpha.
pub struct Raster {
    pub width: nat,
    pub height: nat,
    pub data: Seq<u8>,
}

impl Raster {
    /// The bytes are exactly those of `width` times `height` pixels.
    pub open spec fn wf(self) -> bool {
        self.data.len() == 4 * (self.width * self.height)
    }

    /// Whether `(x, y)` is a pixel of this raster.
    pub open spec fn contains(self, x: int, y: int) -> bool {
        0 <= x < self.width && 0 <= y < self.height
    }

    /// Where the bytes of pixel `(x, y)` start.
    pub open spec fn offset(self, x: int, y: int) -> int {
        4 * (y * self.width + x)
    }

    /// The colour of pixel `(x, y)`.
    pub open spec fn pixel(self, x: int, y: int) -> Color {
        let at = self.offset(x, y);
        Color {
            red: self.data[at],
            green: self.data[at + 1],
            blue: self.data[at + 2],
            alpha: self.data[at + 3],
        }
    }
}

/// The byte of `color` that stands at position `channel` of a pixel.
pub open spec fn channel_of(color: Color, channel: int) -> u8 {
    if channel == 0 {
        color.red
    } else if channel == 1 {
        color.green
    } else if channel == 2 {
        color.blue
    } else {
        color.alpha
    }
}

/// The raster of the given size in which every pixel has the same colour.
pub open spec fn filled(width: nat, height: nat, color: Color) -> Raster {
    Raster {
        width,
        height,
        data: Seq::new(4 * (width * height), |i: int| channel_of(color, i % 4)),
    }
}

/// The largest number of bytes that a canvas can hold.
pub open spec fn max_bytes() -> int {
    isize::MAX as int
}

/// Whether a canvas of the given size can be held in memory.
pub open spec fn addressable(width: nat, height: nat) -> bool {
    4 * (width * height) <= max_bytes()
}

/// The pixels of a raster are numbered row by row: the number of pixel
/// `(x, y)` lies below the number of pixels, and gives back the row as its
/// quotient by the width and the column as the remainder.
pub proof fn lemma_offset_bounds(width: nat, height: nat, x: int, y: int)
    requires
        0 <= x < width,
        0 <= y < height,
    ensures
        0 <= y * width + x < width * height,
        (y * width + x) / (width as int) == y,
        (y * width + x) % (width as int) == x,
{
    assert(y * width + x < width * height) by (nonlinear_arith)
        requires
            0 <= x < width,
            0 <= y < height,
    ;
    assert(0 <= y * width + x) by (nonlinear_arith)
        requires
            0 <= x < width,
            0 <= y < height,
    ;
    vstd::arithmetic::div_mod::lemma_fundamental_div_mod_converse(y * width + x, width as int, y, x);
}

/// The bytes of the pixels that `image::DynamicImage::resize_exact` gives
/// when it scales `source` to `width` by `height` pixels with the
/// nearest-neighbour filter.
pub uninterp spec fn resized_pixels(source: Raster, width: u32, height: u32) -> Seq<u8>;

/// Whether the two buffers that scaling a raster `source_width` pixels wide
/// to `width` by `height` pixels goes through can be addressed: one of
/// `source_width` by `height` pixels at sixteen bytes each, and the result.
pub open spec fn scaling_addressable(source_width: nat, width: nat, height: nat) -> bool {
    &&& 16 * (source_width * height) <= max_bytes()
    &&& 4 * (width * height) <= max_bytes()
}

/// A mutable raster of fixed size.
pub struct Canvas {
    width: u32,
    height: u32,
    data: Vec<u8>,
}

impl View for Canvas {
    type V = Raster;

    closed spec fn view(&self) -> Raster {
        Raster { width: self.width as nat, height: self.height as nat, data: self.data@ }
    }
}

impl Canvas {
    /// The canvas holds exactly the bytes of its pixels, and no more than
    /// can be addressed.
    pub open spec fn wf(&self) -> bool {
        self@.wf() && self@.data.len() <= usize::MAX
    }

    /// Makes a canvas of the given size with every pixel set to `background`.
    pub fn new(width: u32, height: u32, background: Color) -> (canvas: Canvas)
        requires
            addressable(width as nat, height as nat),
        ensures
            canvas.wf(),
            canvas@ == filled(width as nat, height as nat, background),
    {
        let pixels: usize = pixel_count(width, height);
        let mut data: Vec<u8> = Vec::with_capacity(4 * pixels);
        let mut i: usize = 0;
        while i < pixels
            invariant
                i <= pixels,
                pixels == width * height,
                data@.len() == 4 * i,
                forall|j: int| 0 <= j < data@.len() ==> data@[j] == channel_of(background, j % 4),
            decreases pixels - i,
        {
            data.push(background.red);
            data.push(background.green);
            data.push(background.blue);
            data.push(background.alpha);
            i = i + 1;
        }
        assert(data@ =~= filled(width as nat, height as nat, background).data);
        Canvas { width, height, data }
    }

    /// Makes a canvas from the bytes of its pixels, row by row from the top,
    /// four bytes per pixel. Gives `None` unless `data` holds exactly the
    /// bytes of `width` times `height` pixels.
    pub fn from_raw(width: u32, height: u32, data: Vec<u8>) -> (canvas: Option<Canvas>)
        ensures
            canvas is Some <==> data@.len() == 4 * (width * height),
            canvas is Some ==> canvas.unwrap().wf() && canvas.unwrap()@ == (Raster {
                width: width as nat,
                height: height as nat,
                data: data@,
            }),
    {
        let len: usize = data.len();
        let pixels: u64 = area(width, height);
        if len % 4 == 0 && (len / 4) as u64 == pixels {
            Some(Canvas { width, height, data })
        } else {
            None
        }
    }

    /// Gives up the canvas for the bytes of its pixels.
    pub fn into_raw(self) -> (data: Vec<u8>)
        ensures
            data@ == self@.data,
    {
        self.data
    }

    /// Whether the canvas holds exactly the bytes of its pixels.
    pub fn is_well_formed(&self) -> (ok: bool)
        ensures
            ok == self.wf(),
    {
        let len: usize = self.data.len();
        let pixels: u64 = area(self.width, self.height);
        len % 4 == 0 && (len / 4) as u64 == pixels
    }

    /// Calls `image::DynamicImage::resize_exact` on a copy of the pixels, with
    /// the nearest-neighbour filter. The picture that comes back has exactly
    /// the width and the height asked for and holds exactly the bytes of its
    /// pixels; the contract names those bytes, which depend on the source
    /// and the size alone. Beside the result the outside function allocates
    /// one buffer of `self.width` by `height` pixels at sixteen bytes each;
    /// `requires` keeps both within what can be addressed.
    #[verifier::external_body]
    pub(crate) fn scaled(&self, width: u32, height: u32) -> (result: Canvas)
        requires
            self.wf(),
            scaling_addressable(self@.width, width as nat, height as nat),
        ensures
            result.wf(),
            result@.width == width,
            result@.height == height,
            result@.data == resized_pixels(self@, width, height),
    {
        let buffer = image::RgbaImage::from_raw(self.width, self.height, self.data.clone()).unwrap();
        let out = image::DynamicImage::ImageRgba8(buffer)
            .resize_exact(width, height, image::imageops::FilterType::Nearest)
            .into_rgba8();
        Canvas { width: out.width(), height: out.height(), data: out.into_raw() }
    }

    /// The number of columns.
    pub fn width(&self) -> (width: u32)
        ensures
            width == self@.width,
    {
        self.width
    }

    /// The number of rows.
    pub fn height(&self) -> (height: u32)
        ensures
            height == self@.height,
    {
        self.height
    }

    /// Where the bytes of pixel `(x, y)` start.
    fn index_of(&self, x: u32, y: u32) -> (at: usize)
        requires
            self.wf(),
            self@.contains(x as int, y as int),
        ensures
            at == self@.offset(x as int, y as int),
            at + 4 <= self.data@.len(),
    {
        proof {
            lemma_offset_bounds(self.width as nat, self.height as nat, x as int, y as int);
            assert(0 <= y * self.width) by (nonlinear_arith);
        }
        4 * (y as usize * self.width as usize + x as usize)
    }

    /// The colour of pixel `(x, y)`.
    pub fn get(&self, x: u32, y: u32) -> (color: Color)
        requires
            self.wf(),
            self@.contains(x as int, y as int),
        ensures
            color == self@.pixel(x as int, y as int),
    {
        let at = self.index_of(x, y);
        Color {
            red: self.data[at],
            green: self.data[at + 1],
            blue: self.data[at + 2],
            alpha: self.data[at + 3],
        }
    }

    /// Sets pixel `(x, y)` to `color` and leaves every other pixel as it was.
    pub fn set(&mut self, x: u32, y: u32, color: Color)
        requires
            old(self).wf(),
            old(self)@.contains(x as int, y as int),
        ensures
            final(self).wf(),
            final(self)@.width == old(self)@.width,
            final(self)@.height == old(self)@.height,
            final(self)@.data.len() == old(self)@.data.len(),
            final(self)@.pixel(x as int, y as int) == color,
            forall|i: int|
                0 <= i < old(self)@.data.len() && !(old(self)@.offset(x as int, y as int) <= i
                    < old(self)@.offset(x as int, y as int) + 4) ==> final(self)@.data[i] == old(
                    self,
                )@.data[i],
    {
        let at = self.index_of(x, y);
        self.data.set(at, color.red);
        self.data.set(at + 1, color.green);
        self.data.set(at + 2, color.blue);
        self.data.set(at + 3, color.alpha);
    }
}

/// The number of pixels of a raster of the given size.
fn area(width: u32, height: u32) -> (pixels: u64)
    ensures
        pixels == width * height,
{
    assert(width * height <= u64::MAX) by (nonlinear_arith)
        requires
            width <= u32::MAX,
            height <= u32::MAX,
    ;
    width as u64 * height as u64
}

/// The number of pixels of a canvas that can be held in memory.
fn pixel_count(width: u32, height: u32) -> (pixels: usize)
    requires
        addressable(width as nat, height as nat),
    ensures
        pixels == width * height,
        4 * pixels <= isize::MAX,
{
    assert(width * height <= isize::MAX) by (nonlinear_arith)
        requires
            4 * (width * height) <= isize::MAX,
    ;
    width as usize * height as usize
}

} // verus!
