use chip8_emulator::frame::FrameBuffer;
use chip8_emulator::peripherals::PixelData;

fn pixel(x: usize, y: usize, val: bool) -> PixelData {
    PixelData { x, y, val }
}

#[test]
fn new_frame_is_dark() {
    let frame = FrameBuffer::new();
    for y in 0..32 {
        for x in 0..64 {
            assert!(!frame.get(x, y));
        }
    }
    assert!(frame.lit_pixels().is_empty());
}

#[test]
fn sprite_rows_put_the_high_bit_on_the_left() {
    let mut frame = FrameBuffer::new();
    let (collision, pixels) = frame.draw_sprite(8, 4, &[0b1000_0001, 0b0100_0000]);
    assert!(!collision);
    assert_eq!(frame.lit_pixels(), vec![(8, 4), (15, 4), (9, 5)]);
    assert_eq!(pixels.len(), 16);
    assert_eq!(pixels[0], pixel(8, 4, true));
    assert_eq!(pixels[1], pixel(9, 4, false));
    assert_eq!(pixels[7], pixel(15, 4, true));
    assert_eq!(pixels[8], pixel(8, 5, false));
    assert_eq!(pixels[9], pixel(9, 5, true));
}

#[test]
fn drawing_is_exclusive_or() {
    let mut frame = FrameBuffer::new();
    frame.draw_sprite(0, 0, &[0b1100_0000]);
    let (collision, pixels) = frame.draw_sprite(0, 0, &[0b0110_0000]);
    assert!(collision);
    assert_eq!(frame.lit_pixels(), vec![(0, 0), (2, 0)]);
    assert_eq!(pixels[0], pixel(0, 0, true));
    assert_eq!(pixels[1], pixel(1, 0, false));
    assert_eq!(pixels[2], pixel(2, 0, true));
    assert_eq!(pixels[3], pixel(3, 0, false));
}

#[test]
fn drawing_twice_gives_the_frame_back() {
    let mut frame = FrameBuffer::new();
    frame.draw_sprite(3, 3, &[0xFF, 0x81, 0xFF]);
    let before = frame.lit_pixels();
    let sprite = [
        0xAA, 0x55, 0xFF, 0x00, 0x0F, 0xF0, 0x3C, 0xC3, 0x99, 0x66, 0x01, 0x80, 0x7E, 0xE7, 0x18,
    ];
    for &(vx, vy) in &[(0u8, 0u8), (2, 2), (60, 25), (255, 255), (63, 31)] {
        frame.draw_sprite(vx, vy, &sprite);
        assert_ne!(frame.lit_pixels(), before);
        let (second, _) = frame.draw_sprite(vx, vy, &sprite);
        assert_eq!(frame.lit_pixels(), before);
        // The sprite is larger than what is lit: some of its pixels land on dark ones.
        assert!(second);
    }
    // Drawn over itself, a sprite collides the first time and not the second.
    let (first, _) = frame.draw_sprite(3, 3, &[0xFF, 0x81, 0xFF]);
    assert!(first);
    assert!(frame.lit_pixels().is_empty());
    let (second, _) = frame.draw_sprite(3, 3, &[0xFF, 0x81, 0xFF]);
    assert!(!second);
    assert_eq!(frame.lit_pixels(), before);
}

#[test]
fn a_sprite_of_fifteen_rows_wraps_from_the_bottom_to_the_top() {
    let mut frame = FrameBuffer::new();
    let (collision, pixels) = frame.draw_sprite(0, 20, &[0x80; 15]);
    assert!(!collision);
    assert_eq!(pixels.len(), 120);
    let lit = frame.lit_pixels();
    assert_eq!(lit.len(), 15);
    assert_eq!(&lit[..3], &[(0, 0), (0, 1), (0, 2)]);
    assert_eq!(lit[3], (0, 20));
    assert_eq!(lit[14], (0, 31));
}

#[test]
fn clearing_turns_every_pixel_off() {
    let mut frame = FrameBuffer::new();
    frame.draw_sprite(10, 10, &[0xFF, 0xFF]);
    frame.clear();
    assert!(frame.lit_pixels().is_empty());
    let (collision, _) = frame.draw_sprite(10, 10, &[0xFF]);
    assert!(!collision);
}

#[test]
fn stored_pixels_take_their_new_values() {
    let mut frame = FrameBuffer::new();
    assert!(!frame.set_pixel_data(&[pixel(1, 1, true), pixel(63, 31, true), pixel(2, 1, false)]));
    assert_eq!(frame.lit_pixels(), vec![(1, 1), (63, 31)]);
    assert!(frame.get(1, 1));
    // A lit pixel goes dark.
    assert!(frame.set_pixel_data(&[pixel(5, 5, true), pixel(1, 1, false)]));
    assert_eq!(frame.lit_pixels(), vec![(5, 5), (63, 31)]);
    // Lit again and dark again within one batch.
    assert!(frame.set_pixel_data(&[pixel(7, 7, true), pixel(7, 7, false)]));
    assert!(!frame.set_pixel_data(&[pixel(7, 7, false), pixel(5, 5, true)]));
    assert!(!frame.set_pixel_data(&[]));
    assert_eq!(frame.lit_pixels(), vec![(5, 5), (63, 31)]);
}

#[test]
fn stored_pixels_beyond_the_screen_are_dropped() {
    let mut frame = FrameBuffer::new();
    frame.set_pixel_data(&[pixel(0, 0, true)]);
    assert!(!frame.set_pixel_data(&[
        pixel(64, 0, true),
        pixel(0, 32, true),
        pixel(64, 32, false),
        pixel(usize::MAX, usize::MAX, true),
        pixel(64, 0, false),
    ]));
    assert_eq!(frame.lit_pixels(), vec![(0, 0)]);
}

#[test]
fn a_mirror_that_stores_what_a_draw_hands_out_follows_it() {
    let mut engine = FrameBuffer::new();
    let mut mirror = FrameBuffer::new();
    let sprites: [&[u8]; 4] = [&[0xF0, 0x90, 0x90, 0x90, 0xF0], &[0xFF; 15], &[], &[0x3C, 0xC3]];
    let places = [(0u8, 0u8), (61, 29), (2, 1), (200, 100), (61, 29), (0, 0)];
    for &(vx, vy) in &places {
        for sprite in sprites {
            let (collision, pixels) = engine.draw_sprite(vx, vy, sprite);
            assert_eq!(mirror.set_pixel_data(&pixels), collision);
            assert_eq!(mirror.lit_pixels(), engine.lit_pixels());
        }
    }
    assert!(!engine.lit_pixels().is_empty());
}

#[test]
fn lit_pixels_are_listed_row_by_row() {
    let mut frame = FrameBuffer::new();
    let lit = [pixel(63, 0, true), pixel(0, 1, true), pixel(5, 0, true), pixel(0, 31, true)];
    frame.set_pixel_data(&lit);
    assert_eq!(frame.lit_pixels(), vec![(5, 0), (63, 0), (0, 1), (0, 31)]);
}

#[test]
fn frame_as_text() {
    let mut frame = FrameBuffer::new();
    let dark = "_".repeat(64);
    let blank = format!("{}\n", dark).repeat(32) + "End";
    assert_eq!(frame.to_text(), blank);
    let lit = [pixel(0, 0, true), pixel(63, 0, true), pixel(2, 1, true), pixel(63, 31, true)];
    frame.set_pixel_data(&lit);
    let text = frame.to_text();
    let lines: Vec<&str> = text.split('\n').collect();
    assert_eq!(lines.len(), 33);
    assert_eq!(lines[0], format!("X{}X", "_".repeat(62)));
    assert_eq!(lines[1], format!("__X{}", "_".repeat(61)));
    assert_eq!(lines[2], dark);
    assert_eq!(lines[31], format!("{}X", "_".repeat(63)));
    assert_eq!(lines[32], "End");
}
