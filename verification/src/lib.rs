pub mod artifact;
pub mod composite;
pub mod compositor;
pub mod driver;
pub mod error;
pub mod font;
pub mod geom;
pub mod glyph;
pub mod texture;
