//! Tests of the format codec: PNG round trips, JPEG quality clamping and
//! dimension preservation, GIF first-frame decoding and malformed input.

use rasterlib::{decode_gif, decode_jpeg, decode_png, Format, Image, ImgError};

fn sample_2x2() -> Image {
    let bytes: Vec<u8> = vec![
        255, 0, 0, 255, 0, 255, 0, 255, 0, 0, 255, 255, 255, 255, 255, 255,
    ];
    Image::new(2, 2, &bytes).unwrap()
}

#[test]
fn png_round_trip_is_lossless() {
    let bytes: Vec<u8> = (0u8..=239).collect();
    let img = Image::new(12, 5, &bytes).unwrap();
    let png = img.encode_png().unwrap();
    let back = decode_png(&png).unwrap();
    assert_eq!(back.width(), 12);
    assert_eq!(back.height(), 5);
    assert_eq!(back.to_rgba(), bytes);
}

#[test]
fn decode_known_white_pixel_png() {
    let white = image::RgbaImage::from_pixel(1, 1, image::Rgba([255, 255, 255, 255]));
    let mut png: Vec<u8> = Vec::new();
    image::DynamicImage::ImageRgba8(white)
        .write_to(&mut std::io::Cursor::new(&mut png), image::ImageFormat::Png)
        .unwrap();
    let img = decode_png(&png).unwrap();
    assert_eq!(img.width(), 1);
    assert_eq!(img.height(), 1);
    assert_eq!(img.to_rgba(), vec![255, 255, 255, 255]);
}

#[test]
fn decode_malformed_bytes_fails_with_format() {
    let bad: Vec<u8> = vec![0x00, 0x01, 0x02];
    match decode_png(&bad) {
        Err(ImgError::DecodeError { format, reason }) => {
            assert_eq!(format, Format::Png);
            assert!(!reason.is_empty());
        }
        Ok(img) => panic!("malformed bytes decoded to {}x{}", img.width(), img.height()),
        Err(other) => panic!("expected DecodeError, got {:?}", other),
    }
    assert!(matches!(
        decode_jpeg(&bad),
        Err(ImgError::DecodeError { format: Format::Jpeg, .. })
    ));
}

#[test]
fn jpeg_round_trip_preserves_dimensions() {
    let bytes: Vec<u8> = (0u8..=239).collect();
    let img = Image::new(10, 6, &bytes).unwrap();
    for q in [0u8, 1, 37, 100, 150, 255] {
        let jpeg = img.encode_jpeg(q).unwrap();
        let back = decode_jpeg(&jpeg).unwrap();
        assert_eq!(back.width(), 10);
        assert_eq!(back.height(), 6);
    }
}

#[test]
fn jpeg_quality_is_clamped() {
    let img = sample_2x2();
    assert_eq!(img.encode_jpeg(150).unwrap(), img.encode_jpeg(100).unwrap());
    assert_eq!(img.encode_jpeg(255).unwrap(), img.encode_jpeg(100).unwrap());
    assert_eq!(img.encode_jpeg(0).unwrap(), img.encode_jpeg(1).unwrap());
    assert_ne!(img.encode_jpeg(5).unwrap(), img.encode_jpeg(95).unwrap());
}

#[test]
fn jpeg_refuses_oversized_dimensions() {
    // JPEG holds neither side above 65535 pixels.
    let wide = Image::new(65536, 1, &vec![0u8; 65536 * 4]).unwrap();
    assert!(matches!(wide.encode_jpeg(80), Err(ImgError::EncodeError)));
}

#[test]
fn decode_gif_reads_first_frame() {
    let frame = image::RgbaImage::from_pixel(3, 2, image::Rgba([0, 255, 0, 255]));
    let mut gif: Vec<u8> = Vec::new();
    image::DynamicImage::ImageRgba8(frame)
        .write_to(&mut std::io::Cursor::new(&mut gif), image::ImageFormat::Gif)
        .unwrap();
    let img = decode_gif(&gif).unwrap();
    assert_eq!((img.width(), img.height()), (3, 2));
    assert_eq!(img.get_pixel(1, 1).unwrap(), (0, 255, 0, 255));
}

#[test]
fn lanczos_resize_fits_bounds() {
    let bytes: Vec<u8> = (0u8..32).collect();
    let img = Image::new(4, 2, &bytes).unwrap();
    let r = img.resize(2, 2);
    // aspect ratio preserved: 4x2 fitted into 2x2 is 2x1
    assert_eq!((r.width(), r.height()), (2, 1));
    assert_eq!(r.to_rgba().len(), 2 * 1 * 4);
    // resampling is deterministic
    assert_eq!(img.resize(2, 2).to_rgba(), r.to_rgba());
    // a solid color stays that color under resampling
    let solid = Image::new(4, 4, &vec![9u8; 64]).unwrap();
    let rs = solid.resize(2, 2);
    assert_eq!(rs.to_rgba(), vec![9u8; 16]);
}

#[test]
fn version_names_the_engine() {
    assert!(rasterlib::get_version().contains("rasterlib"));
}
