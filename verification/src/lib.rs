//! Text-grid rendering core for a VGA-style character display.
//!
//! The library models a fixed-size character grid with cursor advancement,
//! line wrap and scroll-on-overflow, in two variants: a writer with the
//! dimensions and cell encoding of the memory-mapped text buffer, and an
//! in-memory emulator with caller-supplied dimensions and an inspection API.

pub mod boot;
pub mod color;
pub mod decimal;
pub mod emulator;
pub mod grid;
pub mod laws;
pub mod writer;

pub use boot::MultibootHeader;
pub use color::{Color, ColorCode};
pub use emulator::VgaEmulator;
pub use writer::{ScreenChar, Writer};
