//! Bitmap font decoding and text rasterisation for a small status bar.
//!
//! The crate decodes two bitmap font formats into one glyph model, renders
//! text and a usage graph into rectangular pixel blocks, and lays those
//! blocks out on a flat four-bytes-per-pixel surface.

pub mod block;
pub mod draw;
pub mod element;
pub mod error;
pub mod font;
pub mod glyph;
pub mod history;
pub mod parse;
pub mod psf2_font;
pub mod settings;
pub mod slot;
pub mod state;
pub mod text;
pub mod tile_font;
