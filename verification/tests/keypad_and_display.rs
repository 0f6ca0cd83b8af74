use chip8::consts::{DISPLAY_HEIGHT, DISPLAY_WIDTH, FONT_SET, KEY_LAYOUT};
use chip8::display::{color, Display};
use chip8::keypad::{keycode_map, Keypad};

fn lit(display: &Display) -> Vec<usize> {
    (0..2048).filter(|p| display.memory[*p]).collect()
}

#[test]
fn keys_go_down_and_up() {
    let mut pad = Keypad::new();
    for key in 0..16u8 {
        assert!(!pad.is_key_down(key));
    }
    pad.key_down(0);
    pad.key_down(15);
    assert!(pad.is_key_down(0));
    assert!(pad.is_key_down(15));
    assert!(!pad.is_key_down(7));
    pad.key_up(0);
    assert!(!pad.is_key_down(0));
    assert!(pad.is_key_down(15));
    pad.key_up(3);
    assert!(!pad.is_key_down(3));
}

#[test]
fn keyboard_keys_stand_for_keypad_keys() {
    let expected = [
        ('1', 0x1u8),
        ('2', 0x2),
        ('3', 0x3),
        ('4', 0xC),
        ('q', 0x4),
        ('w', 0x5),
        ('e', 0x6),
        ('r', 0xD),
        ('a', 0x7),
        ('s', 0x8),
        ('d', 0x9),
        ('f', 0xE),
        ('z', 0xA),
        ('x', 0x0),
        ('c', 0xB),
        ('v', 0xF),
    ];
    for (character, key) in expected {
        assert_eq!(keycode_map(character as i32), Some(key));
        assert_eq!(KEY_LAYOUT[key as usize], character as i32);
    }
}

#[test]
fn other_keyboard_keys_stand_for_nothing() {
    for code in ['5', '0', 'p', 'Q', ' ', '\n'] {
        assert_eq!(keycode_map(code as i32), None);
    }
    assert_eq!(keycode_map(27), None);
    assert_eq!(keycode_map(-1), None);
    assert_eq!(keycode_map(0x4000_0052), None);
}

#[test]
fn pixel_colours() {
    assert_eq!(color(true), (0, 204, 204, 255));
    assert_eq!(color(false), (0, 0, 0, 51));
}

#[test]
fn display_dimensions() {
    assert_eq!(DISPLAY_WIDTH * DISPLAY_HEIGHT, 2048);
    assert_eq!(FONT_SET.len(), 80);
}

#[test]
fn a_new_display_is_dark() {
    let display = Display::new();
    assert_eq!(lit(&display), Vec::<usize>::new());
}

#[test]
fn set_and_get_a_pixel() {
    let mut display = Display::new();
    display.set_pixel(3, 2, true);
    assert!(display.get_pixel(3, 2));
    assert!(!display.get_pixel(2, 3));
    assert_eq!(lit(&display), vec![3 + 2 * 64]);
    display.set_pixel(63, 31, true);
    assert!(display.memory[2047]);
    display.set_pixel(3, 2, false);
    assert_eq!(lit(&display), vec![2047]);
}

#[test]
fn clear_turns_every_pixel_off() {
    let mut display = Display::new();
    for p in [0usize, 1, 63, 64, 1000, 2047] {
        display.memory[p] = true;
    }
    display.clear();
    assert_eq!(lit(&display), Vec::<usize>::new());
}

#[test]
fn draw_puts_the_most_significant_bit_leftmost() {
    let mut display = Display::new();
    let collision = display.draw(2, 1, &[0b1010_0001, 0b1000_0000]);
    assert!(!collision);
    assert_eq!(lit(&display), vec![64 + 2, 64 + 4, 64 + 9, 128 + 2]);
}

#[test]
fn draw_a_glyph_of_the_font() {
    let mut display = Display::new();
    assert!(!display.draw(0, 0, &FONT_SET[0..5]));
    assert_eq!(
        lit(&display),
        vec![0, 1, 2, 3, 64, 67, 128, 131, 192, 195, 256, 257, 258, 259]
    );
}

#[test]
fn draw_reports_a_collision_and_turns_the_pixel_off() {
    let mut display = Display::new();
    display.set_pixel(1, 0, true);
    display.set_pixel(20, 20, true);
    let collision = display.draw(0, 0, &[0b1100_0000]);
    assert!(collision);
    assert_eq!(lit(&display), vec![0, 20 + 20 * 64]);
}

#[test]
fn draw_leaves_pixels_under_clear_bits_alone() {
    let mut display = Display::new();
    display.set_pixel(1, 0, true);
    let collision = display.draw(0, 0, &[0b1000_0000]);
    assert!(!collision);
    assert_eq!(lit(&display), vec![0, 1]);
}

#[test]
fn draw_twice_restores_the_framebuffer() {
    let mut display = Display::new();
    display.set_pixel(5, 5, true);
    display.set_pixel(60, 30, true);
    let before = display.memory;
    let sprite = [0xFF, 0x81, 0x42, 0x3C, 0x18];
    let first = display.draw(60, 29, &sprite);
    assert!(first);
    assert_ne!(display.memory, before);
    let second = display.draw(60, 29, &sprite);
    assert!(second);
    assert_eq!(display.memory, before);
}

#[test]
fn draw_wraps_around_both_edges() {
    let mut display = Display::new();
    let collision = display.draw(62, 31, &[0b1111_0000, 0b1000_0000]);
    assert!(!collision);
    assert_eq!(lit(&display), vec![62, 31 * 64, 31 * 64 + 1, 31 * 64 + 62, 31 * 64 + 63]);
}

#[test]
fn draw_takes_the_origin_modulo_the_grid() {
    let mut a = Display::new();
    let mut b = Display::new();
    a.draw(64 + 3, 32 * 5 + 4, &[0xF0, 0x0F]);
    b.draw(3, 4, &[0xF0, 0x0F]);
    assert_eq!(a.memory, b.memory);
    let mut c = Display::new();
    c.draw(usize::MAX, usize::MAX, &[0xC0]);
    assert_eq!(lit(&c), vec![31 * 64, 31 * 64 + 63]);
}

#[test]
fn draw_a_sprite_taller_than_the_screen_flips_a_pixel_twice() {
    let mut display = Display::new();
    let mut sprite = [0u8; 33];
    sprite[0] = 0x80;
    sprite[32] = 0x80;
    sprite[1] = 0x40;
    let collision = display.draw(0, 0, &sprite);
    assert!(collision);
    assert_eq!(lit(&display), vec![64 + 1]);
}

#[test]
fn draw_an_empty_sprite_changes_nothing() {
    let mut display = Display::new();
    display.set_pixel(9, 9, true);
    assert!(!display.draw(9, 9, &[]));
    assert_eq!(lit(&display), vec![9 + 9 * 64]);
}
