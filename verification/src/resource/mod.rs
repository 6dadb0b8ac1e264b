//! Resource loading and decompression.

pub mod bitstream;
pub mod loader;
pub mod lzss;
