//! The integer core of a small ray tracer: colours and their packing into
//! `0xRRGGBB` words, the framebuffer that holds those words, the texel and
//! checker rules of textures, and the depth test that picks what a ray shows.
pub mod color;
pub mod framebuffer;
pub mod render;
pub mod texture;
