use chip8::display::Display;

/// Drawing on a freshly cleared framebuffer never reports a collision.
#[test]
fn draw_on_blank_reports_no_collision() {
    let mut d = Display::new();
    let sprite = vec![0xFF, 0xFF, 0xFF];
    assert!(!d.write_buffer(12, 7, &sprite));
    let mut d2 = Display::new();
    d2.write_buffer(0, 0, &vec![0xAA]);
    d2.clear_buffer();
    assert!(!d2.write_buffer(0, 0, &vec![0xAA]));
}

/// Drawing the same sprite twice restores the framebuffer, and the second
/// draw collides exactly where the first lit pixels.
#[test]
fn draw_twice_restores_and_collides() {
    let mut d = Display::new();
    let sprite = vec![0x3C, 0x42];
    assert!(!d.write_buffer(20, 10, &sprite));
    assert!(d.write_buffer(20, 10, &sprite));
    for y in 0..32 {
        for x in 0..64 {
            assert_eq!(d.pixel(x, y), 0);
        }
    }
}

/// An 8x2 sprite at (60, 30) wraps its columns to {60,61,62,63,0,1,2,3} and
/// keeps its rows at {30, 31}.
#[test]
fn draw_wraps_modulo_screen_size() {
    let mut d = Display::new();
    let sprite = vec![0xFF, 0xFF];
    assert!(!d.write_buffer(60, 30, &sprite));
    for y in [30usize, 31] {
        for x in [60usize, 61, 62, 63, 0, 1, 2, 3] {
            assert_eq!(d.pixel(x, y), 1, "expected lit pixel at {x},{y}");
        }
        for x in [4usize, 5, 59] {
            assert_eq!(d.pixel(x, y), 0, "expected dark pixel at {x},{y}");
        }
    }
    for x in 0..64 {
        assert_eq!(d.pixel(x, 29), 0);
        assert_eq!(d.pixel(x, 0), 0);
    }
}

/// The most significant bit of a sprite row is its leftmost pixel.
#[test]
fn sprite_rows_are_msb_leftmost() {
    let mut d = Display::new();
    d.write_buffer(0, 0, &vec![0x80]);
    assert_eq!(d.pixel(0, 0), 1);
    for x in 1..8 {
        assert_eq!(d.pixel(x, 0), 0);
    }
    d.write_buffer(0, 1, &vec![0x01]);
    assert_eq!(d.pixel(7, 1), 1);
    assert_eq!(d.pixel(0, 1), 0);
}

/// Overlap without a shared lit pixel is no collision; a shared lit pixel
/// is, and the XOR turns it off.
#[test]
fn collision_needs_a_shared_lit_pixel() {
    let mut d = Display::new();
    assert!(!d.write_buffer(0, 0, &vec![0x80]));
    assert!(!d.write_buffer(0, 0, &vec![0x01]));
    assert_eq!(d.pixel(0, 0), 1);
    assert_eq!(d.pixel(7, 0), 1);
    assert!(d.write_buffer(0, 0, &vec![0x80]));
    assert_eq!(d.pixel(0, 0), 0);
    assert_eq!(d.pixel(7, 0), 1);
}

/// Clearing the buffer turns every pixel off.
#[test]
fn clear_buffer_blanks_the_screen() {
    let mut d = Display::new();
    d.write_buffer(5, 5, &vec![0xFF, 0xFF, 0xFF, 0xFF]);
    d.clear_buffer();
    for y in 0..32 {
        for x in 0..64 {
            assert_eq!(d.pixel(x, y), 0);
        }
    }
}
