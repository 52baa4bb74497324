use tomo::alter_chip::display::Display as FlatDisplay;
use tomo::chip8::display::Display;
use tomo::chip8::{DISPLAY_HEIGHT, DISPLAY_SIZE, DISPLAY_WIDTH};

#[test]
fn new_display_is_blank() {
    let d = Display::new();
    for y in 0..DISPLAY_HEIGHT {
        for x in 0..DISPLAY_WIDTH {
            assert!(!d.get_pixel(y, x));
        }
    }
}

#[test]
fn set_and_get_pixel() {
    let mut d = Display::new();
    d.set_pixel(31, 63, true);
    assert!(d.get_pixel(31, 63));
    assert!(!d.get_pixel(31, 62));
    d.set_pixel(31, 63, false);
    assert!(!d.get_pixel(31, 63));
}

#[test]
fn cls_turns_every_pixel_off() {
    let mut d = Display::new();
    d.set_pixel(0, 0, true);
    d.set_pixel(10, 20, true);
    d.set_pixel(31, 63, true);
    d.cls();
    for y in 0..DISPLAY_HEIGHT {
        for x in 0..DISPLAY_WIDTH {
            assert!(!d.get_pixel(y, x));
        }
    }
}

#[test]
fn draw_twice_restores_pixels() {
    let mut d = Display::new();
    d.set_pixel(3, 4, true);
    d.set_pixel(7, 9, true);
    let before = d;
    let sprite = [0xF0, 0x90, 0xF0, 0x90, 0x90];
    let first = d.draw(2, 3, &sprite);
    assert!(first);
    let second = d.draw(2, 3, &sprite);
    assert!(second);
    for y in 0..DISPLAY_HEIGHT {
        for x in 0..DISPLAY_WIDTH {
            assert_eq!(d.get_pixel(y, x), before.get_pixel(y, x));
        }
    }
}

#[test]
fn draw_on_blank_display_does_not_collide() {
    let mut d = Display::new();
    assert!(!d.draw(0, 0, &[0xFF]));
    assert!(d.get_pixel(0, 7));
    assert!(!d.get_pixel(0, 8));
    assert!(d.draw(0, 0, &[0x80]));
    assert!(!d.get_pixel(0, 0));
}

#[test]
fn draw_from_last_column_wraps_to_column_zero() {
    let mut d = Display::new();
    d.draw(DISPLAY_WIDTH - 1, 0, &[0b1110_0000]);
    assert!(d.get_pixel(0, DISPLAY_WIDTH - 1));
    assert!(d.get_pixel(0, 0));
    assert!(d.get_pixel(0, 1));
    assert!(!d.get_pixel(0, 2));
    assert!(!d.get_pixel(0, DISPLAY_WIDTH - 2));
}

#[test]
fn draw_from_last_row_wraps_to_row_zero() {
    let mut d = Display::new();
    d.draw(5, DISPLAY_HEIGHT - 1, &[0x80, 0x80, 0x80]);
    assert!(d.get_pixel(DISPLAY_HEIGHT - 1, 5));
    assert!(d.get_pixel(0, 5));
    assert!(d.get_pixel(1, 5));
    assert!(!d.get_pixel(2, 5));
}

#[test]
fn draw_far_beyond_the_edges_wraps() {
    let mut d = Display::new();
    d.draw(DISPLAY_WIDTH * 3 + 2, DISPLAY_HEIGHT * 5 + 1, &[0x80]);
    assert!(d.get_pixel(1, 2));
}

#[test]
fn sprite_taller_than_display_hits_rows_twice() {
    let mut d = Display::new();
    let sprite = vec![0x80; DISPLAY_HEIGHT + 1];
    let collision = d.draw(0, 0, &sprite);
    assert!(collision);
    assert!(!d.get_pixel(0, 0));
    assert!(d.get_pixel(1, 0));
}

#[test]
fn flat_display_set_get_and_clear() {
    let mut d = FlatDisplay::new();
    d.set_pixel_state(DISPLAY_SIZE - 1, true);
    assert!(d.get_pixel_state(DISPLAY_SIZE - 1));
    assert!(!d.get_pixel_state(0));
    d.clear_display();
    assert!(!d.get_pixel_state(DISPLAY_SIZE - 1));
}

#[test]
fn flat_display_draw_wraps_and_collides() {
    let mut d = FlatDisplay::new();
    assert!(!d.draw(DISPLAY_WIDTH - 1, DISPLAY_HEIGHT - 1, &[0xC0, 0xC0]));
    assert!(d.get_pixel_state(DISPLAY_SIZE - 1));
    assert!(d.get_pixel_state((DISPLAY_HEIGHT - 1) * DISPLAY_WIDTH));
    assert!(d.get_pixel_state(DISPLAY_WIDTH - 1));
    assert!(d.get_pixel_state(0));
    assert!(!d.get_pixel_state(1));
    assert!(d.draw(DISPLAY_WIDTH - 1, DISPLAY_HEIGHT - 1, &[0xC0, 0xC0]));
    assert!(!d.get_pixel_state(0));
}

#[test]
fn empty_sprite_rows_never_collide() {
    let mut d = Display::new();
    d.set_pixel(0, 0, true);
    assert!(!d.draw(0, 0, &[0x00, 0x00]));
    assert!(!d.draw(0, 0, &[0x00, 0x00]));
    assert!(d.get_pixel(0, 0));
}
