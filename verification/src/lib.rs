//! An interpreter for a small 8-bit virtual machine: registers, a flat memory,
//! a call stack, two timers, a 16-key keypad and a monochrome framebuffer.

pub mod consts;
pub mod cpu;
pub mod display;
pub mod error;
pub mod keypad;
pub mod laws;
pub mod machine;
mod rng;
