use glitch::buffer::PixelBuffer;
use glitch::error::GlitchError;
use glitch::glitch::Glitch;
use glitch::pixel::Pixel;

fn png_of(width: u32, height: u32, raw: Vec<u8>) -> Vec<u8> {
    let picture = image::RgbaImage::from_raw(width, height, raw).unwrap();
    let mut sink = std::io::Cursor::new(Vec::new());
    image::DynamicImage::ImageRgba8(picture).write_to(&mut sink, image::ImageOutputFormat::Png).unwrap();
    sink.into_inner()
}

fn varied_raw(width: u32, height: u32, alpha: u8) -> Vec<u8> {
    let mut raw = Vec::new();
    for y in 0..height {
        for x in 0..width {
            raw.extend([(x * 13 + y) as u8, (y * 29) as u8, (x * y + 3) as u8, alpha]);
        }
    }
    raw
}

fn opened(width: u32, height: u32, alpha: u8) -> Glitch {
    Glitch::new(&png_of(width, height, varied_raw(width, height, alpha)), 1).unwrap()
}

#[test]
fn new_reads_a_picture_and_copies_it() {
    let raw = varied_raw(5, 3, 200);
    let glitch = Glitch::new(&png_of(5, 3, raw.clone()), 1).unwrap();
    assert_eq!(glitch.width(), 5);
    assert_eq!(glitch.height(), 3);
    assert_eq!(glitch.input().width(), 5);
    assert_eq!(glitch.input().height(), 3);
    assert_eq!(glitch.input().to_raw(), raw);
    assert_eq!(glitch.output().to_raw(), raw);
}

#[test]
fn over_starts_from_a_picture_in_memory() {
    let raw = varied_raw(4, 3, 9);
    let glitch = Glitch::over(PixelBuffer::from_raw(4, 3, &raw).unwrap(), 1);
    assert_eq!(glitch.width(), 4);
    assert_eq!(glitch.height(), 3);
    assert_eq!(glitch.input().to_raw(), raw);
    assert_eq!(glitch.output().to_raw(), raw);
    assert_eq!(&glitch.write().unwrap()[..4], &[0x89, b'P', b'N', b'G']);
    let nothing = Glitch::over(PixelBuffer::from_pixels(0, 0, Vec::new()).unwrap(), 1);
    assert_eq!(nothing.width(), 0);
    assert!(matches!(nothing.write(), Err(GlitchError::Encode(_))));
}

#[test]
fn new_reads_pictures_without_alpha_as_opaque() {
    let picture = image::RgbImage::from_raw(2, 1, vec![1, 2, 3, 4, 5, 6]).unwrap();
    let mut sink = std::io::Cursor::new(Vec::new());
    image::DynamicImage::ImageRgb8(picture).write_to(&mut sink, image::ImageOutputFormat::Png).unwrap();
    let glitch = Glitch::new(&sink.into_inner(), 1).unwrap();
    assert_eq!(glitch.input().to_raw(), vec![1, 2, 3, 255, 4, 5, 6, 255]);
}

#[test]
fn new_rejects_what_is_no_picture() {
    assert!(matches!(Glitch::new(&[], 1), Err(GlitchError::Decode(_))));
    assert!(matches!(Glitch::new(b"not a picture at all", 1), Err(GlitchError::Decode(_))));
    let mut cut = png_of(4, 4, varied_raw(4, 4, 255));
    cut.truncate(30);
    match Glitch::new(&cut, 1) {
        Err(GlitchError::Decode(text)) => assert!(!text.is_empty()),
        _ => panic!("half a file was read as a picture"),
    }
}

#[test]
fn write_gives_a_png_of_the_output() {
    let mut glitch = opened(6, 4, 255);
    glitch.channel_shift_left();
    let written = glitch.write().unwrap();
    assert_eq!(&written[..8], &[0x89, b'P', b'N', b'G', 0x0d, 0x0a, 0x1a, 0x0a]);
    let read = Glitch::new(&written, 1).unwrap();
    assert_eq!(read.input().to_raw(), glitch.output().to_raw());
    assert_ne!(read.input().to_raw(), glitch.input().to_raw());
}

#[test]
fn copy_brings_the_input_back() {
    let mut glitch = opened(6, 4, 255);
    let first = glitch.input().to_raw();
    glitch.channel_shift_left();
    glitch.transpose_input(1, 2, true);
    assert_ne!(glitch.output().to_raw(), first);
    assert_eq!(glitch.input().to_raw(), first);
    glitch.copy();
    assert_eq!(glitch.output().to_raw(), first);
}

#[test]
fn a_black_picture_is_unchanged_by_a_channel_shift() {
    let mut raw = Vec::new();
    for _ in 0..16 {
        raw.extend([0, 0, 0, 255]);
    }
    let mut glitch = Glitch::over(PixelBuffer::from_raw(4, 4, &raw).unwrap(), 1);
    glitch.channel_shift_left();
    assert_eq!(glitch.output().width(), 4);
    assert_eq!(glitch.output().height(), 4);
    assert_eq!(glitch.output().to_raw(), raw);
}

#[test]
fn a_vertical_transpose_rolls_column_nought_by_one_row() {
    let raw = vec![255, 0, 0, 255, 0, 255, 0, 255, 0, 0, 255, 255, 255, 255, 0, 255];
    let mut glitch = Glitch::over(PixelBuffer::from_raw(2, 2, &raw).unwrap(), 1);
    glitch.vertical_transpose_input(1, 1, true);
    let output = glitch.output();
    assert_eq!(output.get(0, 0), Pixel::new(0, 0, 255, 255));
    assert_eq!(output.get(0, 1), Pixel::new(255, 0, 0, 255));
    assert_eq!(output.get(1, 0), Pixel::new(0, 255, 0, 255));
    assert_eq!(output.get(1, 1), Pixel::new(255, 255, 0, 255));
}

#[test]
fn transposes_read_the_input_whatever_the_output_holds() {
    let mut glitch = opened(4, 4, 255);
    glitch.channel_shift_right();
    glitch.transpose_input(4, 1, true);
    for y in 0..4 {
        for x in 0..4 {
            assert_eq!(glitch.output().get(x, y), glitch.input().get((x + 1) % 4, y));
        }
    }
}

#[test]
fn left_and_right_shifts_cancel() {
    let mut glitch = opened(7, 5, 90);
    let first = glitch.output().to_raw();
    glitch.channel_shift_left();
    glitch.channel_shift_right();
    assert_eq!(glitch.output().to_raw(), first);
    glitch.channel_shift_right();
    glitch.channel_shift_left();
    assert_eq!(glitch.output().to_raw(), first);
}

#[test]
fn set_bounds_narrows_what_the_effects_touch() {
    let mut glitch = opened(6, 6, 255);
    glitch.set_bounds(2, 3);
    assert_eq!(glitch.width(), 2);
    assert_eq!(glitch.height(), 3);
    assert_eq!(glitch.output().width(), 6);
    glitch.channel_shift_left();
    glitch.half_life_right(20, -1);
    glitch.prism_burst();
    glitch.transpose_input(1, 1, true);
    for y in 0..6 {
        for x in 0..6 {
            if x >= 2 || y >= 3 {
                assert_eq!(glitch.output().get(x, y), glitch.input().get(x, y));
            }
        }
    }
    assert_ne!(glitch.output().to_raw(), glitch.input().to_raw());
}

#[test]
fn recolour_keeps_the_alpha_of_the_pixel() {
    let mut glitch = opened(3, 3, 77);
    let before = glitch.input().to_raw();
    glitch.recolour(2, 1, 1, 2, 3);
    assert_eq!(glitch.output().get(2, 1), Pixel::new(1, 2, 3, 77));
    assert_eq!(glitch.input().to_raw(), before);
    for y in 0..3 {
        for x in 0..3 {
            if (x, y) != (2, 1) {
                assert_eq!(glitch.output().get(x, y), glitch.input().get(x, y));
            }
        }
    }
}

#[test]
fn one_seed_gives_one_run_of_streaks() {
    let mut once = opened(32, 32, 255);
    let mut again = opened(32, 32, 255);
    once.seed(7);
    again.seed(7);
    once.half_life_right(40, 10);
    again.half_life_right(40, 10);
    assert_eq!(once.output().to_raw(), again.output().to_raw());
    assert_ne!(once.output().to_raw(), once.input().to_raw());
    let mut other = opened(32, 32, 255);
    other.seed(8);
    other.half_life_right(40, 10);
    assert_ne!(other.output().to_raw(), once.output().to_raw());
}

#[test]
fn streaks_touch_no_more_rows_than_there_are_strikes() {
    let mut glitch = opened(16, 16, 255);
    glitch.seed(3);
    glitch.half_life_right(2, -1);
    let mut touched = 0;
    for y in 0..16 {
        if (0..16).any(|x| glitch.output().get(x, y) != glitch.input().get(x, y)) {
            touched += 1;
        }
    }
    assert!(touched >= 1 && touched <= 2);
    for y in 0..16 {
        for x in 0..16 {
            let now = glitch.output().get(x, y);
            assert!(now.a <= 255 && now.a >= 252);
        }
    }
}

#[test]
fn streaks_start_all_over_the_region() {
    let mut glitch = opened(16, 16, 255);
    glitch.seed(1);
    glitch.half_life_right(60, 1);
    let mut rows = 0;
    let mut columns = 0;
    for n in 0..16 {
        if (0..16).any(|x| glitch.output().get(x, n) != glitch.input().get(x, n)) {
            rows += 1;
        }
        if (0..16).any(|y| glitch.output().get(n, y) != glitch.input().get(n, y)) {
            columns += 1;
        }
    }
    assert!(rows >= 8);
    assert!(columns >= 8);
}

#[test]
fn no_strikes_need_no_region() {
    let mut glitch = opened(4, 4, 255);
    glitch.set_bounds(0, 0);
    glitch.half_life_right(0, 5);
    assert_eq!(glitch.output().to_raw(), glitch.input().to_raw());
    let mut nothing = Glitch::over(PixelBuffer::from_pixels(0, 0, Vec::new()).unwrap(), 1);
    nothing.half_life_right(0, -1);
    nothing.prism_burst();
    nothing.channel_shift_left();
    nothing.transpose_input(1, 1, true);
    nothing.vertical_transpose_input(1, 1, true);
    assert_eq!(nothing.output().to_raw(), Vec::<u8>::new());
    assert!(matches!(nothing.compression_ghost(), Err(_)));
}

#[test]
fn one_seed_gives_one_burst() {
    let mut once = opened(40, 40, 255);
    let mut again = opened(40, 40, 255);
    once.seed(11);
    again.seed(11);
    once.prism_burst();
    again.prism_burst();
    assert_eq!(once.output().to_raw(), again.output().to_raw());
    assert_ne!(once.output().to_raw(), once.input().to_raw());
    for y in 0..40 {
        for x in 0..40 {
            assert_eq!(once.output().get(x, y).a, 255);
        }
    }
}

#[test]
fn glitchers_started_from_one_seed_draw_alike() {
    let mut once = opened(40, 40, 255);
    let mut again = opened(40, 40, 255);
    once.half_life_right(30, 7);
    again.half_life_right(30, 7);
    assert_eq!(once.output().to_raw(), again.output().to_raw());
    assert_eq!(once.draw(0, 1000), again.draw(0, 1000));
    once.channel_shift_left();
    once.transpose_input(3, 4, true);
    once.copy();
    again.copy();
    once.prism_burst();
    again.prism_burst();
    assert_eq!(once.output().to_raw(), again.output().to_raw());
}

#[test]
fn draw_stays_within_its_range() {
    let mut glitch = opened(2, 2, 255);
    let mut seen = [false; 4];
    for _ in 0..200 {
        let drawn = glitch.draw(3, 6);
        assert!(3 <= drawn && drawn <= 6);
        seen[(drawn - 3) as usize] = true;
    }
    assert_eq!(seen, [true; 4]);
    assert_eq!(glitch.draw(9, 9), 9);
    assert_eq!(glitch.output().to_raw(), glitch.input().to_raw());
}

#[test]
fn a_burst_works_on_a_picture_under_ten_rows() {
    let mut glitch = opened(3, 3, 255);
    glitch.prism_burst();
    assert_eq!(glitch.output().width(), 3);
    assert_eq!(glitch.output().height(), 3);
    assert_ne!(glitch.output().to_raw(), glitch.input().to_raw());
}

#[test]
fn an_opaque_picture_of_one_colour_is_unchanged_by_a_burst() {
    let mut raw = Vec::new();
    for _ in 0..(12 * 30) {
        raw.extend([100, 150, 200, 255]);
    }
    for seed in 0..20 {
        let mut glitch = Glitch::new(&png_of(12, 30, raw.clone()), seed).unwrap();
        glitch.prism_burst();
        assert_eq!(glitch.output().to_raw(), raw);
    }
}

#[test]
fn a_ghost_washes_over_an_opaque_picture() {
    let mut glitch = opened(16, 16, 255);
    assert!(glitch.compression_ghost().is_ok());
    assert_ne!(glitch.output().to_raw(), glitch.input().to_raw());
    assert_eq!(glitch.output().width(), 16);
    assert_eq!(glitch.output().height(), 16);
}

#[test]
fn one_seed_gives_one_ghost() {
    let mut once = opened(16, 16, 40);
    let mut again = opened(16, 16, 40);
    once.seed(5);
    again.seed(5);
    assert!(once.compression_ghost().is_ok());
    assert!(again.compression_ghost().is_ok());
    assert_eq!(once.output().to_raw(), again.output().to_raw());
    assert_ne!(once.output().to_raw(), once.input().to_raw());
}

#[test]
fn the_effects_in_a_row_keep_the_size() {
    let mut glitch = opened(120, 90, 255);
    glitch.copy();
    glitch.transpose_input(50, 100, true);
    glitch.vertical_transpose_input(30, 80, true);
    glitch.channel_shift_left();
    glitch.channel_shift_right();
    glitch.half_life_right(1000, 1000);
    glitch.prism_burst();
    assert!(glitch.compression_ghost().is_ok());
    assert_eq!(glitch.output().width(), 120);
    assert_eq!(glitch.output().height(), 90);
    assert_eq!(glitch.width(), 120);
    assert_eq!(glitch.height(), 90);
    assert!(glitch.write().is_ok());
}
