//! Banner Builder renders thumbnails and banner images from a declarative
//! description: a solid background, embedded pictures, a centred headline and
//! freely positioned lines of text.
//!
//! The crate is the rendering core. It works on values in memory: colours,
//! the canvas, the placing of pictures and the arithmetic that places text.
//! Reading configuration and files, rasterising glyphs and encoding the
//! result are left to the program around it.

pub mod canvas;
pub mod color;
pub mod embed;
pub mod error;
pub mod model;
pub mod render;
pub mod text;

pub use canvas::{Canvas, Raster};
pub use color::{get_color, Color};
pub use embed::{embed_image, place_image, resize_image};
pub use error::{Axis, EmbedError, RenderError};
pub use model::{
    default_black, default_embed, default_false, default_font_size, default_lines, default_white,
    Banner, Embed, Text,
};
pub use render::{create_image, draw_image, validate};
pub use text::{
    headline_color, headline_origin, line_origin, line_text, place_line, reverse, wrap_headline,
    Placement,
};
