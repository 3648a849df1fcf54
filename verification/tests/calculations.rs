use mandelbrot::calculations::{
    linear_transform, pix_to_cmplx, remap, ComplexPoint, PixelRect, Viewport,
};

fn default_viewport() -> Viewport<f32> {
    Viewport {
        top_left: ComplexPoint { re: -2.5, im: -1.0 },
        bottom_right: ComplexPoint { re: 1.0, im: 1.0 },
    }
}

#[test]
fn linear_transform_on_integers_rounds_the_quotient_towards_zero() {
    assert_eq!(linear_transform::<i64>(3, 0, 4, 10, 18), 10);
    assert_eq!(linear_transform::<i64>(8, 0, 4, 10, 18), 26);
    assert_eq!(linear_transform::<i64>(9, 0, 4, 10, 18), 26);
    assert_eq!(linear_transform::<i64>(-3, 0, 4, 10, 18), 10);
    assert_eq!(linear_transform::<i64>(-7, 0, 4, 10, 18), 2);
    assert_eq!(linear_transform::<i64>(7, 1, 3, -5, 5), 25);
}

#[test]
fn linear_transform_is_exact_at_both_ends() {
    assert_eq!(linear_transform::<i64>(0, 0, 640, -25, 10), -25);
    assert_eq!(linear_transform::<i64>(640, 0, 640, -25, 10), 10);
    assert_eq!(linear_transform::<i64>(5, 5, -3, 7, -9), 7);
    assert_eq!(linear_transform::<i64>(-3, 5, -3, 7, -9), -9);
    assert_eq!(linear_transform::<f32>(0.0, 0.0, 640.0, -2.5, 1.0), -2.5);
    assert_eq!(linear_transform::<f32>(640.0, 0.0, 640.0, -2.5, 1.0), 1.0);
}

#[test]
fn linear_transform_is_monotonic_onto_a_rising_interval() {
    let mut last = linear_transform::<i64>(-20, 0, 7, -100, 100);
    for x in -19..30 {
        let next = linear_transform::<i64>(x, 0, 7, -100, 100);
        assert!(last <= next);
        last = next;
    }
    let mut last = linear_transform::<f32>(0.0, 0.0, 640.0, -2.5, 1.0);
    for x in 1..=640 {
        let next = linear_transform::<f32>(x as f32, 0.0, 640.0, -2.5, 1.0);
        assert!(last < next);
        last = next;
    }
}

#[test]
fn linear_transform_on_floats_interpolates() {
    assert_eq!(linear_transform::<f32>(1.0, 0.0, 4.0, -2.0, 2.0), -1.0);
    assert_eq!(linear_transform::<f32>(2.0, 0.0, 4.0, -2.5, 1.0), -0.75);
    assert_eq!(linear_transform::<f64>(3.0, 1.0, 5.0, 0.0, 8.0), 4.0);
}

#[test]
fn linear_transform_extrapolates_outside_the_interval() {
    assert_eq!(linear_transform::<f32>(8.0, 0.0, 4.0, -2.0, 2.0), 6.0);
    assert_eq!(linear_transform::<f32>(-4.0, 0.0, 4.0, -2.0, 2.0), -6.0);
}

#[test]
fn first_pixel_maps_to_the_top_left_corner() {
    let v = default_viewport();
    let p = pix_to_cmplx(v.top_left, v.bottom_right, 0.0, 0.0, 0.0, 4.0, 4.0);
    assert_eq!(p, ComplexPoint { re: -2.5, im: -1.0 });
}

#[test]
fn last_pixel_maps_short_of_the_bottom_right_corner() {
    let v = default_viewport();
    let p = pix_to_cmplx(v.top_left, v.bottom_right, 3.0, 3.0, 0.0, 4.0, 4.0);
    assert_eq!(p, ComplexPoint { re: 0.125, im: 0.5 });
    assert!(p.re < 1.0 && p.im < 1.0);
}

#[test]
fn pix_to_cmplx_maps_each_axis_by_itself() {
    let v = default_viewport();
    let p = pix_to_cmplx(v.top_left, v.bottom_right, 320.0, 120.0, 0.0, 640.0, 480.0);
    assert_eq!(p, ComplexPoint { re: -0.75, im: -0.5 });
    let q = pix_to_cmplx(
        ComplexPoint { re: 0i64, im: 100 },
        ComplexPoint { re: 64, im: 200 },
        16,
        3,
        0,
        8,
        3,
    );
    assert_eq!(q, ComplexPoint { re: 128, im: 200 });
}

#[test]
fn remap_of_the_full_frame_keeps_the_viewport() {
    let v = default_viewport();
    let full = PixelRect { left: 0.0, top: 0.0, right: 640.0, bottom: 480.0 };
    let next = remap(v, 0.0, 640.0, 480.0, full);
    assert!((next.top_left.re - -2.5f32).abs() < 1e-6);
    assert!((next.top_left.im - -1.0f32).abs() < 1e-6);
    assert!((next.bottom_right.re - 1.0f32).abs() < 1e-6);
    assert!((next.bottom_right.im - 1.0f32).abs() < 1e-6);
    let w = Viewport {
        top_left: ComplexPoint { re: -250i64, im: -100 },
        bottom_right: ComplexPoint { re: 100, im: 100 },
    };
    let all = PixelRect { left: 0i64, top: 0, right: 640, bottom: 480 };
    assert_eq!(remap(w, 0, 640, 480, all), w);
}

#[test]
fn remap_maps_both_corners_through_the_current_viewport() {
    let v = default_viewport();
    let quarter = PixelRect { left: 160.0, top: 120.0, right: 480.0, bottom: 360.0 };
    let next = remap(v, 0.0, 640.0, 480.0, quarter);
    assert_eq!(next.top_left, ComplexPoint { re: -1.625, im: -0.5 });
    assert_eq!(next.bottom_right, ComplexPoint { re: 0.125, im: 0.5 });
}
