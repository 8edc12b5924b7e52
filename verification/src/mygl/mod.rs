//! What the library knows of drawing: how text is laid out.

pub mod text;

pub use text::HorizontalTextAlignment;
pub use text::VerticalTextAlignment;
