use mandelbrot::pixeling::{PixelImage, RainbowGradient, RgbaPixel, RAINBOW_SIZE};

fn sample_gradient() -> RainbowGradient {
    let mut colors: Vec<[u8; 3]> = Vec::new();
    for i in 0..RAINBOW_SIZE {
        colors.push([i as u8, (255 - i) as u8, (i / 2) as u8]);
    }
    RainbowGradient::new(colors).unwrap()
}

#[test]
fn pixel_from_four_values() {
    let p = RgbaPixel::new(Some([1, 2, 3, 4]));
    assert_eq!(p, RgbaPixel { r: 1, g: 2, b: 3, a: 4 });
}

#[test]
fn pixel_without_values_is_transparent_black() {
    let p = RgbaPixel::new(None);
    assert_eq!(p, RgbaPixel { r: 0, g: 0, b: 0, a: 0 });
    assert_eq!(RgbaPixel::default(), p);
}

#[test]
fn pixel_set_overwrites_every_channel() {
    let mut p = RgbaPixel::new(Some([1, 2, 3, 4]));
    p.set(9, 8, 7, 6);
    assert_eq!(p, RgbaPixel { r: 9, g: 8, b: 7, a: 6 });
}

#[test]
fn pixel_flat_is_r_g_b_a() {
    let p = RgbaPixel { r: 10, g: 20, b: 30, a: 40 };
    assert_eq!(p.flat(), [10, 20, 30, 40]);
}

#[test]
fn gradient_needs_exactly_256_colors() {
    assert!(RainbowGradient::new(Vec::new()).is_none());
    assert!(RainbowGradient::new(vec![[0, 0, 0]; 255]).is_none());
    assert!(RainbowGradient::new(vec![[0, 0, 0]; 257]).is_none());
    assert!(RainbowGradient::new(vec![[0, 0, 0]; 256]).is_some());
}

#[test]
fn gradient_color_wraps_at_256() {
    let g = sample_gradient();
    assert_eq!(g.color(0), [0, 255, 0]);
    assert_eq!(g.color(255), [255, 0, 127]);
    assert_eq!(g.color(256), [0, 255, 0]);
    assert_eq!(g.color(1000), [232, 23, 116]);
}

#[test]
fn from_rainbow_looks_up_the_table_and_is_opaque() {
    let g = sample_gradient();
    assert_eq!(RgbaPixel::from_rainbow(&g, 0), RgbaPixel { r: 0, g: 255, b: 0, a: 255 });
    assert_eq!(RgbaPixel::from_rainbow(&g, 7), RgbaPixel { r: 7, g: 248, b: 3, a: 255 });
    assert_eq!(RgbaPixel::from_rainbow(&g, 255), RgbaPixel { r: 255, g: 0, b: 127, a: 255 });
}

#[test]
fn from_rainbow_has_period_256() {
    let g = sample_gradient();
    for n in [0usize, 1, 50, 255, 256, 999, 1000, 65_535] {
        assert_eq!(RgbaPixel::from_rainbow(&g, n), RgbaPixel::from_rainbow(&g, n + 256));
    }
    assert_eq!(RgbaPixel::from_rainbow(&g, 1000), RgbaPixel::from_rainbow(&g, 232));
    assert_ne!(RgbaPixel::from_rainbow(&g, 1), RgbaPixel::from_rainbow(&g, 2));
}

#[test]
fn from_rainbow_at_the_largest_index() {
    let g = sample_gradient();
    let n = usize::MAX;
    assert_eq!(RgbaPixel::from_rainbow(&g, n), RgbaPixel::from_rainbow(&g, n % 256));
}

#[test]
fn image_new_is_height_rows_of_width_default_pixels() {
    let img = PixelImage::new(3, 2);
    assert_eq!(img.width, 3);
    assert_eq!(img.height, 2);
    assert_eq!(img.pixels.len(), 2);
    for row in img.pixels.iter() {
        assert_eq!(row.len(), 3);
        for p in row.iter() {
            assert_eq!(*p, RgbaPixel { r: 0, g: 0, b: 0, a: 0 });
        }
    }
}

#[test]
fn image_new_with_no_pixels() {
    let mut img = PixelImage::new(0, 0);
    assert_eq!(img.pixels.len(), 0);
    assert_eq!(img.flat(), Vec::<u8>::new());
    let mut rows_only = PixelImage::new(0, 3);
    assert_eq!(rows_only.pixels.len(), 3);
    assert_eq!(rows_only.flat(), Vec::<u8>::new());
}

#[test]
fn image_set_changes_one_pixel_only() {
    let mut img = PixelImage::new(3, 2);
    img.set(2, 1, 5, 6, 7, 8);
    for y in 0..2 {
        for x in 0..3 {
            let expected = if (x, y) == (2, 1) {
                RgbaPixel { r: 5, g: 6, b: 7, a: 8 }
            } else {
                RgbaPixel { r: 0, g: 0, b: 0, a: 0 }
            };
            assert_eq!(img.pixels[y][x], expected);
        }
    }
    assert_eq!(img.width, 3);
    assert_eq!(img.height, 2);
}

#[test]
fn image_flat_is_row_major_with_channels_interleaved() {
    let mut img = PixelImage::new(2, 2);
    img.set(0, 0, 1, 2, 3, 4);
    img.set(1, 0, 5, 6, 7, 8);
    img.set(0, 1, 9, 10, 11, 12);
    img.set(1, 1, 13, 14, 15, 16);
    assert_eq!(img.flat(), vec![1, 2, 3, 4, 5, 6, 7, 8, 9, 10, 11, 12, 13, 14, 15, 16]);
}

#[test]
fn image_flat_has_four_bytes_for_each_pixel() {
    let mut img = PixelImage::new(5, 7);
    img.set(3, 4, 1, 2, 3, 4);
    let bytes = img.flat();
    assert_eq!(bytes.len(), 5 * 7 * 4);
    let at = 4 * (4 * 5 + 3);
    assert_eq!(&bytes[at..at + 4], &[1, 2, 3, 4]);
    assert_eq!(bytes.iter().filter(|b| **b != 0).count(), 4);
}

#[test]
fn image_flat_leaves_the_image_as_it_was() {
    let mut img = PixelImage::new(2, 1);
    img.set(1, 0, 1, 2, 3, 4);
    let first = img.flat();
    let second = img.flat();
    assert_eq!(first, second);
    assert_eq!(img.pixels[0][1], RgbaPixel { r: 1, g: 2, b: 3, a: 4 });
}
