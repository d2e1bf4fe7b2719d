//! The rendering core of a 2D presentation layer: atlas packing, batched
//! geometry, a glyph cache and text layout.
//!
//! The core decides and the caller acts: where the GPU or the font
//! rasterizer has work to do, a function hands back what is to be done, or
//! takes what was delivered.

pub mod assets;
pub mod audio;
pub mod color;
pub mod error;
pub mod font;
pub mod graphics;
pub mod shape;
pub mod text;
pub mod texture;
pub mod texture_atlas;

pub use audio::Audio;
pub use color::Color;
pub use error::Error;
pub use font::{Font, FontHandle};
pub use graphics::Graphics;
pub use shape::IRect;
pub use text::TextRenderer;
pub use texture::{Animation, Texture};
pub use texture_atlas::{TextureAtlas, TextureHandle};
