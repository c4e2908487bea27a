use boot_handoff::surface::{PixelSurface, SurfaceError};

const BLACK: u32 = 0x000000;

#[test]
fn clear_overwrites_every_pixel() {
    let mut s = PixelSurface::new_filled(800, 600, 0xAABBCC);
    s.clear(BLACK);
    for y in 0..600 {
        for x in 0..800 {
            assert_eq!(s.get_pixel(x, y), BLACK);
        }
    }
}

#[test]
fn clear_reaches_corners_and_center() {
    let mut s = PixelSurface::new_filled(640, 480, 0x123456);
    s.clear(0x00FF00);
    assert_eq!(s.get_pixel(0, 0), 0x00FF00);
    assert_eq!(s.get_pixel(639, 0), 0x00FF00);
    assert_eq!(s.get_pixel(0, 479), 0x00FF00);
    assert_eq!(s.get_pixel(639, 479), 0x00FF00);
    assert_eq!(s.get_pixel(320, 240), 0x00FF00);
}

#[test]
fn test_pattern_is_visible_after_black_clear() {
    let mut s = PixelSurface::new_filled(800, 600, 0x777777);
    s.clear(BLACK);
    s.draw_test_pattern();
    let mut some_nonblack = false;
    for y in 0..600 {
        for x in 0..800 {
            if s.get_pixel(x, y) != BLACK {
                some_nonblack = true;
            }
        }
    }
    assert!(some_nonblack);
}

#[test]
fn test_pattern_pixels_follow_coordinates() {
    let mut s = PixelSurface::new_filled(300, 300, BLACK);
    s.draw_test_pattern();
    assert_eq!(s.get_pixel(0, 0), 128);
    assert_eq!(s.get_pixel(1, 0), 1 * 65536 + 128);
    assert_eq!(s.get_pixel(0, 1), 1 * 256 + 128);
    assert_eq!(s.get_pixel(257, 2), 1 * 65536 + 2 * 256 + 128);
}

#[test]
fn test_pattern_is_idempotent() {
    let mut once = PixelSurface::new_filled(64, 64, 0x101010);
    once.draw_test_pattern();
    let mut twice = PixelSurface::new_filled(64, 64, 0x101010);
    twice.draw_test_pattern();
    twice.draw_test_pattern();
    for y in 0..64 {
        for x in 0..64 {
            assert_eq!(once.get_pixel(x, y), twice.get_pixel(x, y));
        }
    }
}

#[test]
fn fill_rect_paints_inside_and_spares_outside() {
    let mut s = PixelSurface::new_filled(20, 10, BLACK);
    let r = s.fill_rect(0xFF0000, 3, 2, 4, 5);
    assert_eq!(r, Ok(()));
    for y in 0..10 {
        for x in 0..20 {
            let inside = (3..7).contains(&x) && (2..7).contains(&y);
            let expected = if inside { 0xFF0000 } else { BLACK };
            assert_eq!(s.get_pixel(x, y), expected);
        }
    }
}

#[test]
fn fill_rect_out_of_bounds_fails_and_changes_nothing() {
    let mut s = PixelSurface::new_filled(20, 10, 0x445566);
    let r = s.fill_rect(0xFF0000, 18, 0, 4, 2);
    assert_eq!(r, Err(SurfaceError::OutOfBounds));
    let r2 = s.fill_rect(0xFF0000, 0, 9, 1, 2);
    assert_eq!(r2, Err(SurfaceError::OutOfBounds));
    for y in 0..10 {
        for x in 0..20 {
            assert_eq!(s.get_pixel(x, y), 0x445566);
        }
    }
}

#[test]
fn fill_rect_accepts_exact_fit() {
    let mut s = PixelSurface::new_filled(8, 4, BLACK);
    let r = s.fill_rect(0x0000FF, 0, 0, 8, 4);
    assert_eq!(r, Ok(()));
    assert_eq!(s.get_pixel(7, 3), 0x0000FF);
}
