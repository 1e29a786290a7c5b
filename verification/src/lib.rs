//! A text console on a linear pixel framebuffer: a PSF2 bitmap-font reader and
//! a cursor that rasterizes glyphs, wraps lines and scrolls.

pub mod font;
pub mod view;
pub mod raster;
pub mod laws;
pub mod cursor;
pub mod heap;

pub use font::{Font, FontError, Psf2Header};
pub use view::CursorView;
pub use cursor::Cursor;
