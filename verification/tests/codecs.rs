use glitch::buffer::PixelBuffer;
use glitch::codec::{decode, encode, Encoding};
use glitch::error::GlitchError;
use glitch::pixel::Pixel;

fn varied(width: u32, height: u32) -> PixelBuffer {
    let mut pixels = Vec::new();
    for y in 0..height {
        for x in 0..width {
            pixels.push(Pixel::new((x * 31) as u8, (y * 17) as u8, (x + y) as u8, (255 - x * y) as u8));
        }
    }
    PixelBuffer::from_pixels(width, height, pixels).unwrap()
}

#[test]
fn a_png_gives_back_the_picture_it_was_made_of() {
    let picture = varied(7, 5);
    let bytes = encode(&picture, Encoding::Png).unwrap();
    assert_eq!(&bytes[..8], &[0x89, b'P', b'N', b'G', 0x0d, 0x0a, 0x1a, 0x0a]);
    let read = decode(&bytes).unwrap();
    assert_eq!(read.width(), 7);
    assert_eq!(read.height(), 5);
    assert_eq!(read.to_raw(), picture.to_raw());
}

#[test]
fn a_jpeg_gives_back_a_picture_of_the_same_size() {
    let picture = varied(9, 4);
    let bytes = encode(&picture, Encoding::Jpeg(80)).unwrap();
    assert_eq!(&bytes[..2], &[0xff, 0xd8]);
    let read = decode(&bytes).unwrap();
    assert_eq!(read.width(), 9);
    assert_eq!(read.height(), 4);
    assert_eq!(read.to_raw().len(), 9 * 4 * 4);
}

#[test]
fn encoding_gives_the_same_bytes_every_time() {
    let picture = varied(8, 8);
    assert_eq!(encode(&picture, Encoding::Png).unwrap(), encode(&picture, Encoding::Png).unwrap());
    assert_eq!(encode(&picture, Encoding::Jpeg(10)).unwrap(), encode(&picture, Encoding::Jpeg(10)).unwrap());
    assert_ne!(encode(&picture, Encoding::Jpeg(10)).unwrap(), encode(&picture, Encoding::Jpeg(90)).unwrap());
}

#[test]
fn what_is_no_picture_is_a_decode_error() {
    assert!(matches!(decode(&[]), Err(GlitchError::Decode(_))));
    assert!(matches!(decode(&[0x89, b'P', b'N', b'G']), Err(GlitchError::Decode(_))));
    match decode(b"plainly not a picture") {
        Err(error) => assert!(!error.message().is_empty()),
        Ok(_) => panic!("plain text was read as a picture"),
    }
}

#[test]
fn a_picture_without_pixels_is_an_encode_error() {
    let nothing = PixelBuffer::from_pixels(0, 0, Vec::new()).unwrap();
    assert!(matches!(encode(&nothing, Encoding::Png), Err(GlitchError::Encode(_))));
    let flat = PixelBuffer::from_pixels(3, 0, Vec::new()).unwrap();
    match encode(&flat, Encoding::Png) {
        Err(error) => assert!(!error.message().is_empty()),
        Ok(_) => panic!("a picture without rows was written"),
    }
}

#[test]
fn a_picture_too_wide_for_jpeg_is_an_encode_error() {
    let wide = PixelBuffer::from_pixels(65536, 1, vec![Pixel::new(1, 2, 3, 255); 65536]).unwrap();
    assert!(matches!(encode(&wide, Encoding::Jpeg(50)), Err(GlitchError::Encode(_))));
    assert!(encode(&wide, Encoding::Png).is_ok());
}
