use chip8_emulator::display::{
    clear_video, draw_sprite, grey_levels, sprite_in_bounds, SCREEN_HEIGHT, SCREEN_WIDTH,
    VIDEO_SIZE,
};

fn memory_with(at: usize, bytes: &[u8]) -> [u8; 4096] {
    let mut memory = [0u8; 4096];
    memory[at..at + bytes.len()].copy_from_slice(bytes);
    memory
}

#[test]
fn display_is_64_by_32() {
    assert_eq!(SCREEN_WIDTH, 64);
    assert_eq!(SCREEN_HEIGHT, 32);
    assert_eq!(VIDEO_SIZE, SCREEN_WIDTH * SCREEN_HEIGHT);
}

#[test]
fn draw_sprite_lights_the_set_bits() {
    let memory = memory_with(0x300, &[0b1010_0001]);
    let mut video = [0u8; 2048];
    let collision = draw_sprite(&mut video, &memory, 0x300, 1, 10, 4);
    assert!(!collision);
    let row = 4 * 64;
    let mut expected = [0u8; 2048];
    expected[row + 10] = 1;
    expected[row + 12] = 1;
    expected[row + 17] = 1;
    assert_eq!(video, expected);
}

#[test]
fn draw_sprite_twice_restores_and_collides() {
    let memory = memory_with(0x300, &[0xF0, 0x90, 0x90, 0x90, 0xF0]);
    let mut video = [0u8; 2048];
    video[7] = 1;
    let before = video;
    assert!(!draw_sprite(&mut video, &memory, 0x300, 5, 20, 10));
    assert_ne!(video, before);
    assert!(draw_sprite(&mut video, &memory, 0x300, 5, 20, 10));
    assert_eq!(video, before);
}

#[test]
fn draw_sprite_collides_on_one_shared_pixel() {
    let memory = memory_with(0x300, &[0x80, 0x01]);
    let mut video = [0u8; 2048];
    assert!(!draw_sprite(&mut video, &memory, 0x300, 1, 12, 5));
    assert_eq!(video[5 * 64 + 12], 1);
    // The second sprite's only pixel is its eighth: drawn at x 5 it lands on x 12.
    assert!(draw_sprite(&mut video, &memory, 0x301, 1, 5, 5));
    assert_eq!(video, [0u8; 2048]);
}

#[test]
fn draw_sprite_does_not_wrap_at_the_right_edge() {
    let memory = memory_with(0x300, &[0xFF]);
    let mut video = [0u8; 2048];
    assert!(sprite_in_bounds(&memory, 0x300, 1, 60, 0));
    assert!(!draw_sprite(&mut video, &memory, 0x300, 1, 60, 0));
    let mut expected = [0u8; 2048];
    for cell in 60..68 {
        expected[cell] = 1;
    }
    assert_eq!(video, expected);
    // Cells 64 to 67 are the first four pixels of row 1.
    assert_eq!(&video[64..68], &[1, 1, 1, 1]);
}

#[test]
fn sprite_in_bounds_refuses_rows_below_the_display() {
    let memory = memory_with(0x300, &[0x80, 0x80]);
    assert!(sprite_in_bounds(&memory, 0x300, 1, 0, 31));
    assert!(!sprite_in_bounds(&memory, 0x300, 2, 0, 31));
    assert!(sprite_in_bounds(&memory, 0x300, 2, 0, 30));
}

#[test]
fn sprite_in_bounds_looks_at_lit_pixels_only() {
    // The second row is dark, so nothing lands below the display.
    let memory = memory_with(0x300, &[0xFF, 0x00]);
    assert!(sprite_in_bounds(&memory, 0x300, 2, 0, 31));
    // In the last row, x 60 puts the fifth pixel on cell 2048.
    let memory = memory_with(0x300, &[0xF0]);
    assert!(sprite_in_bounds(&memory, 0x300, 1, 60, 31));
    let memory = memory_with(0x300, &[0xF8]);
    assert!(!sprite_in_bounds(&memory, 0x300, 1, 60, 31));
}

#[test]
fn empty_sprite_fits_and_draws_nothing() {
    let memory = [0xFFu8; 4096];
    let mut video = [0u8; 2048];
    assert!(sprite_in_bounds(&memory, 4096, 0, 63, 31));
    assert!(!draw_sprite(&mut video, &memory, 4096, 0, 63, 31));
    assert_eq!(video, [0u8; 2048]);
}

#[test]
fn clear_video_turns_every_pixel_off() {
    let mut video = [1u8; 2048];
    clear_video(&mut video);
    assert_eq!(video, [0u8; 2048]);
}

#[test]
fn grey_levels_are_0_and_255() {
    let mut video = [0u8; 2048];
    video[0] = 1;
    video[100] = 1;
    video[2047] = 1;
    let pixels = grey_levels(&video);
    assert_eq!(pixels.len(), 2048);
    for cell in 0..2048 {
        assert_eq!(pixels[cell], video[cell] * 255);
    }
    assert_eq!(pixels[0], 255);
    assert_eq!(pixels[1], 0);
}
