pub mod compositor;
pub mod framebuffer;
pub mod display;
