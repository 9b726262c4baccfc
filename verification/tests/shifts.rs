use glitch::buffer::PixelBuffer;
use glitch::pixel::Pixel;
use glitch::shift::{shift_left, shift_right};

fn varied(width: u32, height: u32) -> PixelBuffer {
    let mut pixels = Vec::new();
    for y in 0..height {
        for x in 0..width {
            pixels.push(Pixel::new((7 * x + y) as u8, (3 * y + 100) as u8, (x * y) as u8, (50 * x) as u8));
        }
    }
    PixelBuffer::from_pixels(width, height, pixels).unwrap()
}

#[test]
fn an_all_black_picture_is_the_same_after_a_shift() {
    let black = Pixel::new(0, 0, 0, 255);
    let mut output = PixelBuffer::from_pixels(4, 4, vec![black; 16]).unwrap();
    shift_left(&mut output, 4, 4);
    assert_eq!(output.width(), 4);
    assert_eq!(output.height(), 4);
    for y in 0..4 {
        for x in 0..4 {
            assert_eq!(output.get(x, y), black);
        }
    }
    shift_right(&mut output, 4, 4);
    for y in 0..4 {
        for x in 0..4 {
            assert_eq!(output.get(x, y), black);
        }
    }
}

#[test]
fn a_shift_to_the_left_turns_every_pixel() {
    let before = varied(3, 2);
    let mut output = before.duplicate();
    shift_left(&mut output, 3, 2);
    for y in 0..2 {
        for x in 0..3 {
            let p = before.get(x, y);
            assert_eq!(output.get(x, y), Pixel::new(p.g, p.b, p.r, p.a));
        }
    }
}

#[test]
fn a_shift_to_the_right_turns_every_pixel() {
    let before = varied(3, 2);
    let mut output = before.duplicate();
    shift_right(&mut output, 3, 2);
    for y in 0..2 {
        for x in 0..3 {
            let p = before.get(x, y);
            assert_eq!(output.get(x, y), Pixel::new(p.b, p.r, p.g, p.a));
        }
    }
}

#[test]
fn left_then_right_gives_the_picture_back() {
    let before = varied(5, 4);
    let mut output = before.duplicate();
    shift_left(&mut output, 5, 4);
    assert_ne!(output.to_raw(), before.to_raw());
    shift_right(&mut output, 5, 4);
    assert_eq!(output.to_raw(), before.to_raw());
    shift_right(&mut output, 5, 4);
    shift_left(&mut output, 5, 4);
    assert_eq!(output.to_raw(), before.to_raw());
}

#[test]
fn a_shift_gives_the_same_picture_every_time() {
    let before = varied(5, 4);
    let mut once = before.duplicate();
    let mut again = before.duplicate();
    shift_left(&mut once, 5, 4);
    shift_left(&mut again, 5, 4);
    assert_eq!(once.to_raw(), again.to_raw());
}

#[test]
fn a_shift_stays_within_the_region() {
    let before = varied(4, 4);
    let mut output = before.duplicate();
    shift_left(&mut output, 2, 3);
    for y in 0..4 {
        for x in 0..4 {
            let p = before.get(x, y);
            let want = if x < 2 && y < 3 { Pixel::new(p.g, p.b, p.r, p.a) } else { p };
            assert_eq!(output.get(x, y), want);
        }
    }
    let mut untouched = before.duplicate();
    shift_right(&mut untouched, 0, 4);
    shift_right(&mut untouched, 4, 0);
    assert_eq!(untouched.to_raw(), before.to_raw());
}
