use chip8::display::Display;

#[test]
fn test_set_get_pixel() {
    let mut display = Display::new();

    for x in 0..display.width() {
        for y in 0..display.height() {
            display.xor_pixel(x, y, true);

            assert_eq!(display.pixel(x, y), true);

            display.xor_pixel(x, y, true);

            assert_eq!(display.pixel(x, y), false);
        }
    }
}

#[test]
fn test_clear() {
    let mut display = Display::new();

    for x in 0..display.width() {
        for y in 0..display.height() {
            display.xor_pixel(x, y, true);
            assert_eq!(display.pixel(x, y), true);
        }
    }

    display.clear();

    for x in 0..display.width() {
        for y in 0..display.height() {
            assert_eq!(display.pixel(x, y), false);
        }
    }
}

#[test]
fn new_display_is_blank() {
    let display = Display::new();
    assert_eq!(display.width(), 64);
    assert_eq!(display.height(), 32);
    assert_eq!(display.pixels().len(), 2048);
    assert!(display.pixels().iter().all(|lit| !*lit));
}

#[test]
fn compute_idx_is_row_major() {
    let display = Display::new();
    assert_eq!(display.compute_idx(0, 0), 0);
    assert_eq!(display.compute_idx(63, 0), 63);
    assert_eq!(display.compute_idx(0, 1), 64);
    assert_eq!(display.compute_idx(5, 3), 197);
    assert_eq!(display.compute_idx(63, 31), 2047);
}

#[test]
fn pixels_exposes_frame_buffer_row_by_row() {
    let mut display = Display::new();
    display.xor_pixel(5, 3, true);
    let pixels = display.pixels();
    for (idx, lit) in pixels.iter().enumerate() {
        assert_eq!(*lit, idx == 3 * 64 + 5);
    }
}

#[test]
fn xor_pixel_reports_only_lit_to_unlit() {
    let mut display = Display::new();
    // unlit ^ false stays unlit, nothing cleared
    assert_eq!(display.xor_pixel(10, 10, false), false);
    assert_eq!(display.pixel(10, 10), false);
    // unlit ^ true lights up, nothing cleared
    assert_eq!(display.xor_pixel(10, 10, true), false);
    assert_eq!(display.pixel(10, 10), true);
    // lit ^ false stays lit, nothing cleared
    assert_eq!(display.xor_pixel(10, 10, false), false);
    assert_eq!(display.pixel(10, 10), true);
    // lit ^ true goes dark: cleared
    assert_eq!(display.xor_pixel(10, 10, true), true);
    assert_eq!(display.pixel(10, 10), false);
}

#[test]
fn draw_sprite_sets_bits_most_significant_first() {
    let mut display = Display::new();
    let collision = display.draw_sprite(8, 4, &[0b1010_0001]);
    assert_eq!(collision, false);
    let lit: Vec<usize> = (0..64).filter(|x| display.pixel(*x, 4)).collect();
    assert_eq!(lit, vec![8, 10, 15]);
    for y in 0..32 {
        if y != 4 {
            for x in 0..64 {
                assert_eq!(display.pixel(x, y), false);
            }
        }
    }
}

#[test]
fn draw_sprite_rows_go_downwards() {
    let mut display = Display::new();
    display.draw_sprite(0, 0, &[0x80, 0x40, 0x20]);
    assert!(display.pixel(0, 0));
    assert!(display.pixel(1, 1));
    assert!(display.pixel(2, 2));
    assert_eq!(display.pixels().iter().filter(|lit| **lit).count(), 3);
}

#[test]
fn draw_sprite_wraps_horizontally() {
    let mut display = Display::new();
    let collision = display.draw_sprite(60, 0, &[0xFF]);
    assert_eq!(collision, false);
    let lit: Vec<usize> = (0..64).filter(|x| display.pixel(*x, 0)).collect();
    assert_eq!(lit, vec![0, 1, 2, 3, 60, 61, 62, 63]);
    // nothing spills into the next row
    for x in 0..64 {
        assert_eq!(display.pixel(x, 1), false);
    }
}

#[test]
fn draw_sprite_wraps_vertically() {
    let mut display = Display::new();
    let collision = display.draw_sprite(0, 30, &[0x80, 0x80, 0x80, 0x80]);
    assert_eq!(collision, false);
    let lit: Vec<usize> = (0..32).filter(|y| display.pixel(0, *y)).collect();
    assert_eq!(lit, vec![0, 1, 30, 31]);
}

#[test]
fn draw_sprite_wraps_start_coordinates() {
    let mut wrapped = Display::new();
    wrapped.draw_sprite(64 + 3, 32 + 5, &[0xF0, 0x90]);
    let mut plain = Display::new();
    plain.draw_sprite(3, 5, &[0xF0, 0x90]);
    assert_eq!(wrapped.pixels(), plain.pixels());

    let mut far = Display::new();
    far.draw_sprite(255, 255, &[0xC0]);
    assert!(far.pixel(63, 31));
    assert!(far.pixel(0, 31));
    assert_eq!(far.pixels().iter().filter(|lit| **lit).count(), 2);
}

#[test]
fn draw_sprite_twice_restores_and_collides() {
    let sprite: [u8; 5] = [0xF0, 0x90, 0xF0, 0x90, 0xF0];
    let mut display = Display::new();
    let first = display.draw_sprite(61, 29, &sprite);
    assert_eq!(first, false);
    assert!(display.pixels().iter().any(|lit| *lit));
    let second = display.draw_sprite(61, 29, &sprite);
    assert_eq!(second, true);
    assert!(display.pixels().iter().all(|lit| !*lit));
}

#[test]
fn draw_sprite_twice_restores_any_background() {
    let mut display = Display::new();
    display.draw_sprite(2, 2, &[0xAA, 0x55, 0xAA]);
    let before: Vec<bool> = display.pixels().to_vec();
    display.draw_sprite(4, 3, &[0xFF, 0x81]);
    assert_ne!(display.pixels(), &before[..]);
    display.draw_sprite(4, 3, &[0xFF, 0x81]);
    assert_eq!(display.pixels(), &before[..]);
}

#[test]
fn draw_sprite_collision_is_a_single_flag() {
    // one erased pixel
    let mut one = Display::new();
    one.draw_sprite(0, 0, &[0x80]);
    assert_eq!(one.draw_sprite(0, 0, &[0xC0]), true);
    assert_eq!(one.pixel(0, 0), false);
    assert_eq!(one.pixel(1, 0), true);
    // eight erased pixels
    let mut many = Display::new();
    many.draw_sprite(0, 0, &[0xFF]);
    assert_eq!(many.draw_sprite(0, 0, &[0xFF]), true);
    // overlapping but nothing erased: lit pixels under clear sprite bits
    let mut none = Display::new();
    none.draw_sprite(0, 0, &[0xF0]);
    assert_eq!(none.draw_sprite(0, 0, &[0x0F]), false);
    let lit: Vec<usize> = (0..64).filter(|x| none.pixel(*x, 0)).collect();
    assert_eq!(lit, vec![0, 1, 2, 3, 4, 5, 6, 7]);
}

#[test]
fn draw_empty_sprite_changes_nothing() {
    let mut display = Display::new();
    display.draw_sprite(1, 1, &[0xFF]);
    let before: Vec<bool> = display.pixels().to_vec();
    assert_eq!(display.draw_sprite(1, 1, &[]), false);
    assert_eq!(display.pixels(), &before[..]);
    assert_eq!(display.draw_sprite(1, 1, &[0x00, 0x00]), false);
    assert_eq!(display.pixels(), &before[..]);
}

#[test]
fn draw_sprite_taller_than_the_screen_overlaps_itself() {
    // row 32 lands on the same display row as row 0
    let mut sprite = vec![0u8; 33];
    sprite[0] = 0x80;
    sprite[32] = 0x80;
    let mut display = Display::new();
    let collision = display.draw_sprite(0, 0, &sprite);
    assert_eq!(collision, true);
    assert!(display.pixels().iter().all(|lit| !*lit));
}

#[test]
fn clear_then_every_pixel_is_unlit() {
    let mut display = Display::new();
    display.draw_sprite(13, 7, &[0xFF, 0xFF, 0xFF, 0xFF, 0xFF, 0xFF, 0xFF, 0xFF]);
    display.draw_sprite(60, 30, &[0xFF, 0xFF, 0xFF, 0xFF]);
    display.clear();
    for x in 0..64 {
        for y in 0..32 {
            assert_eq!(display.pixel(x, y), false);
        }
    }
    // clearing a clear screen keeps it clear
    display.clear();
    assert!(display.pixels().iter().all(|lit| !*lit));
}
