use glitch::buffer::PixelBuffer;
use glitch::pixel::Pixel;
use glitch::streak::strike;

fn row() -> Vec<Pixel> {
    vec![
        Pixel::new(100, 8, 16, 255),
        Pixel::new(0, 8, 16, 255),
        Pixel::new(40, 200, 16, 255),
        Pixel::new(7, 7, 7, 7),
    ]
}

fn picture() -> PixelBuffer {
    let mut pixels = row();
    pixels.extend(row());
    PixelBuffer::from_pixels(4, 2, pixels).unwrap()
}

fn row_of(buffer: &PixelBuffer, y: u32) -> Vec<Pixel> {
    (0..buffer.width()).map(|x| buffer.get(x, y)).collect()
}

#[test]
fn a_streak_blends_its_way_to_the_right() {
    let mut output = picture();
    let last = strike(&mut output, 4, 0, 0, 2);
    assert_eq!(
        row_of(&output, 0),
        vec![
            Pixel::new(100, 8, 16, 254),
            Pixel::new(75, 8, 16, 253),
            Pixel::new(40, 200, 16, 255),
            Pixel::new(7, 7, 7, 7),
        ]
    );
    assert_eq!(last, Pixel::new(75, 8, 16, 253));
    assert_eq!(row_of(&output, 1), row());
}

#[test]
fn a_negative_length_runs_to_the_edge() {
    let mut output = picture();
    let last = strike(&mut output, 4, 1, 1, -1);
    assert_eq!(
        row_of(&output, 1),
        vec![
            Pixel::new(100, 8, 16, 255),
            Pixel::new(0, 8, 16, 254),
            Pixel::new(10, 56, 16, 253),
            Pixel::new(8, 43, 13, 190),
        ]
    );
    assert_eq!(last, Pixel::new(8, 43, 13, 190));
    assert_eq!(row_of(&output, 0), row());
    let mut least = picture();
    strike(&mut least, 4, 1, 1, i32::MIN);
    assert_eq!(least.to_raw(), output.to_raw());
}

#[test]
fn a_streak_ends_at_the_edge_of_the_region() {
    let mut output = picture();
    let last = strike(&mut output, 3, 1, 0, -1);
    assert_eq!(
        row_of(&output, 0),
        vec![
            Pixel::new(100, 8, 16, 255),
            Pixel::new(0, 8, 16, 254),
            Pixel::new(10, 56, 16, 253),
            Pixel::new(7, 7, 7, 7),
        ]
    );
    assert_eq!(last, Pixel::new(10, 56, 16, 253));
}

#[test]
fn a_long_streak_is_cut_at_the_edge() {
    let mut output = picture();
    let last = strike(&mut output, 4, 2, 0, 100);
    assert_eq!(
        row_of(&output, 0),
        vec![
            Pixel::new(100, 8, 16, 255),
            Pixel::new(0, 8, 16, 255),
            Pixel::new(40, 200, 16, 254),
            Pixel::new(31, 151, 13, 191),
        ]
    );
    assert_eq!(last, Pixel::new(31, 151, 13, 191));
    let mut longest = picture();
    strike(&mut longest, 4, 2, 0, i32::MAX);
    assert_eq!(longest.to_raw(), output.to_raw());
}

#[test]
fn a_streak_of_no_length_writes_nothing() {
    let mut output = picture();
    let last = strike(&mut output, 4, 3, 0, 0);
    assert_eq!(output.to_raw(), picture().to_raw());
    assert_eq!(last, Pixel::new(7, 7, 7, 7));
}

#[test]
fn a_streak_over_darker_pixels_ends_darker_than_it_began() {
    let pixels = vec![
        Pixel::new(200, 200, 200, 200),
        Pixel::new(200, 200, 200, 200),
        Pixel::new(199, 200, 10, 200),
    ];
    let mut output = PixelBuffer::from_pixels(3, 1, pixels).unwrap();
    let last = strike(&mut output, 3, 0, 0, 3);
    assert_eq!(last, Pixel::new(199, 200, 152, 200));
    assert!(last.r < 200);
    assert!(last.b < 200);
    for x in 0..3 {
        let p = output.get(x, 0);
        assert!(p.r <= 200 && p.g <= 200 && p.b <= 200 && p.a <= 200);
    }
}

#[test]
fn a_streak_over_one_colour_in_fours_changes_nothing() {
    let colour = Pixel::new(100, 8, 16, 252);
    let mut output = PixelBuffer::from_pixels(5, 1, vec![colour; 5]).unwrap();
    let last = strike(&mut output, 5, 1, 0, -1);
    assert_eq!(last, colour);
    for x in 0..5 {
        assert_eq!(output.get(x, 0), colour);
    }
}

#[test]
fn a_streak_over_one_colour_loses_what_rounding_takes() {
    let colour = Pixel::new(255, 255, 255, 255);
    let mut output = PixelBuffer::from_pixels(4, 1, vec![colour; 4]).unwrap();
    let last = strike(&mut output, 4, 0, 0, -1);
    // 255 -> 191 + 63 = 254 -> 190 + 63 = 253 -> 189 + 63 = 252 -> 189 + 63 = 252
    assert_eq!(output.get(0, 0), Pixel::new(254, 254, 254, 254));
    assert_eq!(output.get(1, 0), Pixel::new(253, 253, 253, 253));
    assert_eq!(output.get(2, 0), Pixel::new(252, 252, 252, 252));
    assert_eq!(output.get(3, 0), Pixel::new(252, 252, 252, 252));
    assert_eq!(last, Pixel::new(252, 252, 252, 252));
}
