//! Tests of the pixel buffer and the geometric and photometric transforms.

use rasterlib::{Image, ImgError};

// A 2x2 test buffer: red, green / blue, white.
fn sample_2x2() -> Image {
    let bytes: Vec<u8> = vec![
        255, 0, 0, 255, 0, 255, 0, 255, 0, 0, 255, 255, 255, 255, 255, 255,
    ];
    Image::new(2, 2, &bytes).unwrap()
}

#[test]
fn construct_and_get_pixel() {
    let img = sample_2x2();
    assert_eq!(img.width(), 2);
    assert_eq!(img.height(), 2);
    assert_eq!(img.get_pixel(1, 0).unwrap(), (0, 255, 0, 255));
}

#[test]
fn construct_rejects_bad_length() {
    let bytes: Vec<u8> = vec![1, 2, 3];
    match Image::new(2, 2, &bytes) {
        Err(ImgError::InvalidDimensions { expected, actual }) => {
            assert_eq!(expected, 16);
            assert_eq!(actual, 3);
        }
        other => panic!("expected InvalidDimensions, got {:?}", other.map(|i| i.width())),
    }
    assert!(matches!(
        Image::new(0, 1, &[]),
        Err(ImgError::InvalidDimensions { .. })
    ));
}

#[test]
fn get_pixel_out_of_bounds() {
    let img = sample_2x2();
    assert!(matches!(img.get_pixel(2, 0), Err(ImgError::OutOfBounds)));
    assert!(matches!(img.get_pixel(0, 2), Err(ImgError::OutOfBounds)));
    assert_eq!(
        img.get_pixel(9, 9).unwrap_err().describe(),
        "coordinates out of bounds"
    );
}

#[test]
fn set_pixel_writes_and_preserves_others() {
    let mut img = sample_2x2();
    img.set_pixel(0, 1, 9, 8, 7, 6).unwrap();
    assert_eq!(img.get_pixel(0, 1).unwrap(), (9, 8, 7, 6));
    assert_eq!(img.get_pixel(0, 0).unwrap(), (255, 0, 0, 255));
    assert_eq!(img.get_pixel(1, 1).unwrap(), (255, 255, 255, 255));
}

#[test]
fn set_pixel_out_of_bounds_leaves_buffer() {
    let mut img = sample_2x2();
    let before = img.to_rgba();
    assert!(matches!(
        img.set_pixel(5, 0, 1, 2, 3, 4),
        Err(ImgError::OutOfBounds)
    ));
    assert_eq!(img.to_rgba(), before);
}

#[test]
fn rotate90_moves_pixels() {
    let img = sample_2x2();
    let r = img.rotate90();
    assert_eq!(r.width(), 2);
    assert_eq!(r.height(), 2);
    // blue, red / white, green
    assert_eq!(r.get_pixel(0, 0).unwrap(), (0, 0, 255, 255));
    assert_eq!(r.get_pixel(1, 0).unwrap(), (255, 0, 0, 255));
    assert_eq!(r.get_pixel(0, 1).unwrap(), (255, 255, 255, 255));
    assert_eq!(r.get_pixel(1, 1).unwrap(), (0, 255, 0, 255));
}

#[test]
fn rotate90_four_times_restores() {
    let bytes: Vec<u8> = (0u8..=239).collect();
    let img = Image::new(3, 20, &bytes).unwrap();
    let r = img.rotate90().rotate90().rotate90().rotate90();
    assert_eq!(r.width(), 3);
    assert_eq!(r.height(), 20);
    assert_eq!(r.to_rgba(), bytes);
}

#[test]
fn rotate180_twice_restores() {
    let bytes: Vec<u8> = (0u8..=239).collect();
    let img = Image::new(5, 12, &bytes).unwrap();
    let r = img.rotate180().rotate180();
    assert_eq!(r.to_rgba(), bytes);
    // rotate270 is rotate90 applied three times
    let a = img.rotate270().to_rgba();
    let b = img.rotate90().rotate90().rotate90().to_rgba();
    assert_eq!(a, b);
}

#[test]
fn flip_involutions() {
    let bytes: Vec<u8> = (0u8..=239).collect();
    let img = Image::new(4, 15, &bytes).unwrap();
    assert_eq!(img.fliph().fliph().to_rgba(), bytes);
    assert_eq!(img.flipv().flipv().to_rgba(), bytes);
}

#[test]
fn flips_move_pixels() {
    let img = sample_2x2();
    let h = img.fliph();
    assert_eq!(h.get_pixel(0, 0).unwrap(), (0, 255, 0, 255));
    assert_eq!(h.get_pixel(1, 0).unwrap(), (255, 0, 0, 255));
    let v = img.flipv();
    assert_eq!(v.get_pixel(0, 0).unwrap(), (0, 0, 255, 255));
    assert_eq!(v.get_pixel(0, 1).unwrap(), (255, 0, 0, 255));
}

#[test]
fn crop_full_equals_original() {
    let img = sample_2x2();
    let c = img.crop(0, 0, 2, 2).unwrap();
    assert_eq!(c.width(), 2);
    assert_eq!(c.height(), 2);
    assert_eq!(c.to_rgba(), img.to_rgba());
}

#[test]
fn crop_subrectangle() {
    let img = sample_2x2();
    let c = img.crop(1, 0, 1, 2).unwrap();
    assert_eq!((c.width(), c.height()), (1, 2));
    assert_eq!(c.get_pixel(0, 0).unwrap(), (0, 255, 0, 255));
    assert_eq!(c.get_pixel(0, 1).unwrap(), (255, 255, 255, 255));
}

#[test]
fn crop_out_of_bounds() {
    let img = sample_2x2();
    assert!(matches!(img.crop(1, 0, 2, 2), Err(ImgError::OutOfBounds)));
    assert!(matches!(img.crop(0, 2, 1, 1), Err(ImgError::OutOfBounds)));
    assert!(matches!(img.crop(0, 0, 0, 2), Err(ImgError::OutOfBounds)));
}

#[test]
fn resize_fast_nearest_neighbour() {
    let img = sample_2x2();
    let down = img.resize_fast(1, 1);
    assert_eq!((down.width(), down.height()), (1, 1));
    assert_eq!(down.get_pixel(0, 0).unwrap(), (255, 0, 0, 255));
    let up = img.resize_fast(4, 2);
    assert_eq!((up.width(), up.height()), (4, 2));
    // src x = floor(dst_x * 2 / 4): columns 0,0,1,1
    assert_eq!(up.get_pixel(1, 0).unwrap(), (255, 0, 0, 255));
    assert_eq!(up.get_pixel(2, 0).unwrap(), (0, 255, 0, 255));
}

#[test]
fn transforms_preserve_size_invariant() {
    let img = sample_2x2();
    let cases: Vec<(u32, u32, Vec<u8>)> = vec![
        {
            let r = img.rotate90();
            (r.width(), r.height(), r.to_rgba())
        },
        {
            let r = img.rotate180();
            (r.width(), r.height(), r.to_rgba())
        },
        {
            let r = img.fliph();
            (r.width(), r.height(), r.to_rgba())
        },
        {
            let r = img.crop(0, 1, 2, 1).unwrap();
            (r.width(), r.height(), r.to_rgba())
        },
        {
            let r = img.resize_fast(3, 5);
            (r.width(), r.height(), r.to_rgba())
        },
        {
            let r = img.grayscale();
            (r.width(), r.height(), r.to_rgba())
        },
        {
            let r = img.brighten(-40);
            (r.width(), r.height(), r.to_rgba())
        },
    ];
    for (w, h, pixels) in cases {
        assert_eq!(pixels.len(), (w as usize) * (h as usize) * 4);
    }
}

#[test]
fn grayscale_uses_luminance_weights() {
    let bytes: Vec<u8> = vec![255, 0, 0, 7, 10, 20, 30, 255, 0, 255, 0, 0, 0, 0, 255, 9];
    let img = Image::new(4, 1, &bytes).unwrap();
    let g = img.grayscale();
    // 2126 * r / 10000 etc., truncated
    assert_eq!(g.get_pixel(0, 0).unwrap(), (54, 54, 54, 7));
    assert_eq!(g.get_pixel(1, 0).unwrap(), (18, 18, 18, 255));
    assert_eq!(g.get_pixel(2, 0).unwrap(), (182, 182, 182, 0));
    assert_eq!(g.get_pixel(3, 0).unwrap(), (18, 18, 18, 9));
}

#[test]
fn invert_mutates_in_place() {
    let mut img = sample_2x2();
    img.invert();
    assert_eq!(img.get_pixel(0, 0).unwrap(), (0, 255, 255, 255));
    assert_eq!(img.get_pixel(1, 1).unwrap(), (0, 0, 0, 255));
    img.invert();
    assert_eq!(img.to_rgba(), sample_2x2().to_rgba());
}

#[test]
fn brighten_clamps_channels() {
    let bytes: Vec<u8> = vec![250, 5, 128, 3];
    let img = Image::new(1, 1, &bytes).unwrap();
    let up = img.brighten(10);
    assert_eq!(up.get_pixel(0, 0).unwrap(), (255, 15, 138, 3));
    let down = img.brighten(-10);
    assert_eq!(down.get_pixel(0, 0).unwrap(), (240, 0, 118, 3));
}

#[test]
fn resampling_is_deterministic() {
    let bytes: Vec<u8> = (0u8..=239).collect();
    let img = Image::new(6, 10, &bytes).unwrap();
    assert_eq!(
        img.resize_fast(4, 7).to_rgba(),
        img.resize_fast(4, 7).to_rgba()
    );
    assert_eq!(img.grayscale().to_rgba(), img.grayscale().to_rgba());
}
