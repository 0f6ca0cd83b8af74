use vstd::prelude::*;

verus! {

/// Number of addressable bytes of memory.
pub const MEMORY_SIZE: usize = 4096;

/// Address at which a program image is loaded and at which execution starts.
pub const ROM_LOCATION: u16 = 0x200;

/// Number of general-purpose registers.
pub const REGISTER_COUNT: usize = 16;

/// Index of the flag register.
pub const FLAG_REGISTER: usize = 0xF;

/// Number of return addresses that the call stack can hold.
pub const STACK_SIZE: usize = 16;

/// Number of keys on the keypad.
pub const KEY_COUNT: usize = 16;

/// Width of the framebuffer in pixels.
pub const DISPLAY_WIDTH: usize = 64;

/// Height of the framebuffer in pixels.
pub const DISPLAY_HEIGHT: usize = 32;

/// Number of pixels of the framebuffer.
pub const DISPLAY_SIZE: usize = 2048;

/// Side of the square that a host window draws for one pixel.
pub const SCALE: usize = 10;

/// Number of bytes of one glyph of the built-in font.
pub const GLYPH_SIZE: usize = 5;

/// Number of bytes of the built-in font.
pub const FONT_SIZE: usize = 80;

/// The built-in font: sixteen glyphs of five rows each, for the digits 0 to F.
pub const FONT_SET: [u8; 80] = [
    0xF0, 0x90, 0x90, 0x90, 0xF0,
    0x20, 0x60, 0x20, 0x20, 0x70,
    0xF0, 0x10, 0xF0, 0x80, 0xF0,
    0xF0, 0x10, 0xF0, 0x10, 0xF0,
    0x90, 0x90, 0xF0, 0x10, 0x10,
    0xF0, 0x80, 0xF0, 0x10, 0xF0,
    0xF0, 0x80, 0xF0, 0x90, 0xF0,
    0xF0, 0x10, 0x20, 0x40, 0x40,
    0xF0, 0x90, 0xF0, 0x90, 0xF0,
    0xF0, 0x90, 0xF0, 0x10, 0xF0,
    0xF0, 0x90, 0xF0, 0x90, 0x90,
    0xE0, 0x90, 0xE0, 0x90, 0xE0,
    0xF0, 0x80, 0x80, 0x80, 0xF0,
    0xE0, 0x90, 0x90, 0x90, 0xE0,
    0xF0, 0x80, 0xF0, 0x80, 0xF0,
    0xF0, 0x80, 0xF0, 0x80, 0x80,
];

/// For each key of the keypad, the code point of the character that the key
/// of the host's keyboard which stands for it types: `x` for key 0, `1` for
/// key 1, and so on to `v` for key F.
pub const KEY_LAYOUT: [i32; 16] = [
    120, 49, 50, 51,
    113, 119, 101, 97,
    115, 100, 122, 99,
    52, 114, 102, 118,
];

} // verus!
