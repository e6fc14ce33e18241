//! A minimal software-framebuffer core: a fixed-resolution 2D surface of
//! packed 32-bit colors with bottom-left-origin addressing, a dirty flag
//! that batches texture uploads, and the per-frame step ordering used to
//! present the surface on screen.

pub mod frame;
pub mod surface;
