use chip_8::screen::{Screen, PIXEL_COUNT, SCREEN_HEIGHT, SCREEN_WIDTH};

fn lit(screen: &Screen) -> Vec<(usize, usize)> {
    let pixels = screen.snapshot();
    let mut on = Vec::new();
    for k in 0..2048 {
        if pixels[k] {
            on.push((k % 64, k / 64));
        }
    }
    on
}

#[test]
fn display_is_64_by_32() {
    assert_eq!(SCREEN_WIDTH, 64);
    assert_eq!(SCREEN_HEIGHT, 32);
    assert_eq!(PIXEL_COUNT, 2048);
    assert_eq!(Screen::new().snapshot().len(), 2048);
}

#[test]
fn new_display_is_blank() {
    assert!(lit(&Screen::new()).is_empty());
}

#[test]
fn clear_turns_all_2048_pixels_off() {
    let mut screen = Screen::new();
    screen.draw(0, 0, &[0xFF; 32]);
    screen.draw(8, 0, &[0xFF; 32]);
    screen.draw(60, 30, &[0xFF; 4]);
    assert!(!lit(&screen).is_empty());
    screen.clear_screen();
    assert!(screen.snapshot().iter().all(|p| !*p));
    screen.clear_screen();
    assert!(screen.snapshot().iter().all(|p| !*p));
}

#[test]
fn draw_puts_the_most_significant_bit_leftmost() {
    let mut screen = Screen::new();
    assert!(!screen.draw(3, 5, &[0b1010_0001]));
    assert_eq!(lit(&screen), vec![(3, 5), (5, 5), (10, 5)]);
}

#[test]
fn draw_puts_one_byte_per_row() {
    let mut screen = Screen::new();
    assert!(!screen.draw(0, 0, &[0x80, 0x40, 0x20]));
    assert_eq!(lit(&screen), vec![(0, 0), (1, 1), (2, 2)]);
}

#[test]
fn snapshot_is_row_major() {
    let mut screen = Screen::new();
    screen.draw(2, 1, &[0x80]);
    let pixels = screen.snapshot();
    assert!(pixels[64 + 2]);
    assert_eq!(pixels.iter().filter(|p| **p).count(), 1);
}

#[test]
fn draw_wraps_the_start_coordinates() {
    let mut a = Screen::new();
    let mut b = Screen::new();
    a.draw(64 + 7, 32 + 3, &[0xF0, 0x0F]);
    b.draw(7, 3, &[0xF0, 0x0F]);
    assert_eq!(a.snapshot(), b.snapshot());
    let mut c = Screen::new();
    c.draw(255, 255, &[0x80]);
    assert_eq!(lit(&c), vec![(63, 31)]);
}

#[test]
fn draw_wraps_around_the_right_and_bottom_edges() {
    let mut screen = Screen::new();
    assert!(!screen.draw(60, 31, &[0xFF, 0x81]));
    assert_eq!(
        lit(&screen),
        vec![
            (3, 0), (60, 0),
            (0, 31), (1, 31), (2, 31), (3, 31), (60, 31), (61, 31), (62, 31), (63, 31),
        ]
    );
}

#[test]
fn drawing_twice_restores_the_display_and_collides() {
    let mut screen = Screen::new();
    screen.draw(10, 10, &[0x3C, 0x42, 0x81]);
    let before = screen.snapshot();
    let sprite = [0xFF, 0x18, 0x18, 0xFF, 0x01];
    let first = screen.draw(12, 9, &sprite);
    assert!(first);
    assert_ne!(screen.snapshot(), before);
    let second = screen.draw(12, 9, &sprite);
    assert!(second);
    assert_eq!(screen.snapshot(), before);
}

#[test]
fn drawing_twice_on_a_blank_display_collides_on_the_second_draw_only() {
    let mut screen = Screen::new();
    assert!(!screen.draw(62, 30, &[0xC3, 0xC3, 0xC3]));
    assert!(screen.draw(62, 30, &[0xC3, 0xC3, 0xC3]));
    assert!(lit(&screen).is_empty());
}

#[test]
fn empty_sprite_draws_nothing() {
    let mut screen = Screen::new();
    screen.draw(1, 1, &[0xFF]);
    let before = screen.snapshot();
    assert!(!screen.draw(1, 1, &[]));
    assert_eq!(screen.snapshot(), before);
}

#[test]
fn blank_rows_never_collide() {
    let mut screen = Screen::new();
    screen.draw(0, 0, &[0xFF, 0xFF]);
    assert!(!screen.draw(0, 0, &[0x00, 0x00]));
    assert!(!screen.draw(8, 0, &[0xFF, 0xFF]));
    assert_eq!(lit(&screen).len(), 32);
}

#[test]
fn collision_is_reported_for_a_single_shared_pixel() {
    let mut screen = Screen::new();
    screen.draw(7, 0, &[0x80]);
    assert!(screen.draw(0, 0, &[0x01]));
    assert!(lit(&screen).is_empty());
}

#[test]
fn sprite_taller_than_the_display_wraps_onto_its_own_rows() {
    let mut screen = Screen::new();
    let mut sprite = [0u8; 33];
    sprite[0] = 0xF0;
    sprite[32] = 0x3C;
    assert!(!screen.draw(0, 0, &sprite));
    assert_eq!(lit(&screen), vec![(0, 0), (1, 0), (4, 0), (5, 0)]);
    assert!(screen.draw(0, 0, &sprite));
    assert!(lit(&screen).is_empty());
}
