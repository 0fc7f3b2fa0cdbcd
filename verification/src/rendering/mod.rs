//! Display rendering: the software framebuffer and the text helpers.

pub mod bitmap;
pub mod display_task;
pub mod font;
pub mod framebuffer;
pub mod geometry;
pub mod glyph_cache;
pub mod layout;
pub mod status;
