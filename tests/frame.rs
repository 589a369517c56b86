use chip8_core::display::{Pixel, PixelBuffer};
use chip8_core::frame::{ExternalFrameBuffer, FrameBuffer, InternalFrameBuffer};
use chip8_core::keypad::{InvalidKey, KeyPad};
use chip8_core::utils::{concat_bytes, is_bit_set};
use chip8_core::{Key, KeyState};

fn lit(fb: &FrameBuffer, x: usize, y: usize) -> bool {
    let offset = (y * 64 + x) * 4;
    fb.as_bytes()[offset..offset + 4] == [255, 255, 255, 255]
}

#[test]
fn full_byte_sprite_at_origin() {
    let mut fb = FrameBuffer::new(None);
    assert_eq!(fb.draw(&[0xFF], (0, 0)), false);
    for x in 0..8 {
        assert!(lit(&fb, x, 0));
    }
    assert!(!lit(&fb, 8, 0));
    assert!(!lit(&fb, 0, 1));
    assert_eq!(fb.draw(&[0xFF], (0, 0)), true);
    for x in 0..8 {
        assert!(!lit(&fb, x, 0));
    }
}

#[test]
fn start_wraps_and_edges_clip() {
    let mut fb = FrameBuffer::new(None);
    // x = 62 + 64 wraps to 62; only two columns fit; y = 31 leaves one row
    assert_eq!(fb.draw(&[0xFF, 0xFF], (62 + 64, 31 + 32)), false);
    assert!(lit(&fb, 62, 31));
    assert!(lit(&fb, 63, 31));
    assert!(!lit(&fb, 0, 31));
    assert!(!lit(&fb, 62, 0));
    let count = fb.as_bytes().chunks(4).filter(|p| p[0] == 255).count();
    assert_eq!(count, 2);
}

#[test]
fn clear_after_draw() {
    let mut fb = FrameBuffer::new(None);
    fb.draw(&[0xA5, 0x5A], (10, 10));
    fb.clear();
    assert!(fb.as_bytes().chunks(4).all(|p| p == [0, 0, 0, 255]));
}

#[test]
fn external_buffer_is_used_and_cleared() {
    let buffer = vec![7u8; 64 * 32 * 4 + 4];
    let mut fb = FrameBuffer::new(Some(buffer));
    assert_eq!(fb.len(), 64 * 32 * 4 + 4);
    assert!(fb.as_bytes().chunks(4).all(|p| p == [0, 0, 0, 255]));
    fb.draw(&[0x80], (1, 2));
    assert!(lit(&fb, 1, 2));
    assert_eq!(&fb.as_bytes()[8192..], &[0, 0, 0, 255]);
    assert!(matches!(fb, FrameBuffer::External(_)));
    assert!(matches!(FrameBuffer::new(None), FrameBuffer::Internal(_)));
    let copy = fb.snapshot();
    assert_eq!(copy.as_bytes(), fb.as_bytes());
    let _ = ExternalFrameBuffer::new(vec![0u8; 8192]);
    let _ = InternalFrameBuffer::new();
}

#[test]
fn pixel_buffer_draws_like_the_frame() {
    let mut pixels = PixelBuffer::new();
    assert_eq!(pixels.draw(&[0xC0, 0x01], (63, 30)), false);
    assert_eq!(pixels.pixels()[30 * 64 + 63], Pixel::On);
    assert_eq!(pixels.pixels()[30 * 64], Pixel::Off);
    assert_eq!(pixels.pixels()[31 * 64 + 63], Pixel::Off);
    assert_eq!(pixels.draw(&[0xC0, 0x01], (63, 30)), true);
    assert!(pixels.pixels().iter().all(|p| *p == Pixel::Off));
    pixels.draw(&[0xFF], (0, 0));
    pixels.clear();
    assert!(pixels.pixels().iter().all(|p| *p == Pixel::Off));
}

#[test]
fn keypad_edges() {
    let mut pad = KeyPad::new();
    assert_eq!(pad.find_released_key(), None);
    pad.set(Key::KeyC, KeyState::Released);
    pad.set(Key::Key2, KeyState::Released);
    pad.set(Key::Key1, KeyState::Pressed);
    assert_eq!(pad.find_released_key(), Some(Key::Key2));
    pad.reset_released_keys();
    assert_eq!(pad.get(Key::KeyC), KeyState::Idle);
    assert_eq!(pad.get(Key::Key1), KeyState::Pressed);
    assert_eq!(pad.find_released_key(), None);
}

#[test]
fn key_digits() {
    assert_eq!(u8::from(Key::KeyA), 10);
    assert_eq!(Key::try_from(15), Ok(Key::KeyF));
    assert_eq!(Key::try_from(16), Err(InvalidKey { value: 16 }));
}

#[test]
fn bytes_and_bits() {
    assert_eq!(concat_bytes(&[0x12, 0x34, 0x56]), 0x123456);
    assert_eq!(concat_bytes(&[]), 0);
    assert!(is_bit_set(0b1000_0001, 7));
    assert!(is_bit_set(0b1000_0001, 0));
    assert!(!is_bit_set(0b1000_0001, 3));
}
