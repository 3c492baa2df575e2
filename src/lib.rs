//! An interpreter for the CHIP-8 byte-code: 4 KiB of memory, sixteen 8-bit
//! registers, a 64x32 monochrome framebuffer, two countdown timers and sixteen
//! input lines, driven one tick at a time by its caller.
pub mod machine;
pub mod display;
pub mod entropy;
pub mod chip8;
pub mod laws;
