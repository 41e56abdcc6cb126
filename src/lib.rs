//! Text-mode console driver: a 25 x 80 grid of two-byte character cells that
//! is written line by line, with wrapping and scrolling.

pub mod buffer;
pub mod color;
pub mod vga_buffer;

pub use buffer::{Buffer, BUFFER_HEIGHT, BUFFER_WIDTH};
pub use color::{Color, ColorCode, ScreenChar};
pub use vga_buffer::{test_print, Writer};
