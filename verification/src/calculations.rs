//! Linear interpolation between two intervals, the primitive of the mapping
//! from pixel coordinates to coordinates in the plane.

use std::ops::{Add, Div, Mul, Sub};
use vstd::arithmetic::div_mod::lemma_div_is_ordered;
use vstd::prelude::*;
use vstd::std_specs::ops::{AddSpec, DivSpec, MulSpec, SubSpec};

verus! {

/// The four operators of `T` behave as their specifications say.
pub open spec fn obeys_arithmetic<T>() -> bool where
    T: Copy + Add<T, Output = T> + Div<T, Output = T> + Mul<T, Output = T> + Sub<T, Output = T>,
 {
    T::obeys_sub_spec() && T::obeys_div_spec() && T::obeys_mul_spec() && T::obeys_add_spec()
}

/// Every operation of `(x - a) / (b - a) * (d - c) + c` is defined in `T`:
/// nothing overflows and `b - a` is not zero.
pub open spec fn linear_transform_req<T>(x: T, a: T, b: T, c: T, d: T) -> bool where
    T: Copy + Add<T, Output = T> + Div<T, Output = T> + Mul<T, Output = T> + Sub<T, Output = T>,
 {
    &&& x.sub_req(a)
    &&& b.sub_req(a)
    &&& d.sub_req(c)
    &&& x.sub_spec(a).div_req(b.sub_spec(a))
    &&& x.sub_spec(a).div_spec(b.sub_spec(a)).mul_req(d.sub_spec(c))
    &&& x.sub_spec(a).div_spec(b.sub_spec(a)).mul_spec(d.sub_spec(c)).add_req(c)
}

/// The value that the line through `(a, c)` and `(b, d)` has at `x`, computed
/// in `T` as `(x - a) / (b - a) * (d - c) + c`.
pub open spec fn linear_transform_spec<T>(x: T, a: T, b: T, c: T, d: T) -> T where
    T: Copy + Add<T, Output = T> + Div<T, Output = T> + Mul<T, Output = T> + Sub<T, Output = T>,
 {
    x.sub_spec(a).div_spec(b.sub_spec(a)).mul_spec(d.sub_spec(c)).add_spec(c)
}

/// Maps `x` from the interval from `a` to `b` onto the interval from `c` to
/// `d`; values outside the first interval are extrapolated along the same line.
pub fn linear_transform<T>(x: T, a: T, b: T, c: T, d: T) -> (r: T) where
    T: Copy + Add<T, Output = T> + Div<T, Output = T> + Mul<T, Output = T> + Sub<T, Output = T>,

    requires
        obeys_arithmetic::<T>(),
        linear_transform_req(x, a, b, c, d),
    ensures
        r == linear_transform_spec(x, a, b, c, d),
{
    (x - a) / (b - a) * (d - c) + c
}

/// The quotient of `n` by `m`, rounded towards zero.
pub open spec fn truncated_quotient(n: int, m: int) -> int {
    if n >= 0 {
        n / m
    } else {
        -((-n) / m)
    }
}

/// `linear_transform` on integers: the quotient is rounded towards zero
/// before it is scaled.
pub open spec fn interpolate(x: int, a: int, b: int, c: int, d: int) -> int {
    truncated_quotient(x - a, b - a) * (d - c) + c
}

/// `v` is a value of `i64`.
pub open spec fn fits_i64(v: int) -> bool {
    i64::MIN <= v <= i64::MAX
}

/// The interval from `a` to `b` is not a single point, and every intermediate
/// value of `interpolate(x, a, b, c, d)` is a value of `i64`.
pub open spec fn interpolate_fits_i64(x: int, a: int, b: int, c: int, d: int) -> bool {
    let q = truncated_quotient(x - a, b - a);
    &&& a != b
    &&& fits_i64(x - a)
    &&& fits_i64(b - a)
    &&& fits_i64(d - c)
    &&& fits_i64(q)
    &&& fits_i64(q * (d - c))
    &&& fits_i64(q * (d - c) + c)
}

/// On `i64` the operators obey their specifications, `linear_transform` is
/// defined exactly where no intermediate value overflows, and there it
/// computes `interpolate`.
pub proof fn lemma_linear_transform_i64(x: i64, a: i64, b: i64, c: i64, d: i64)
    ensures
        obeys_arithmetic::<i64>(),
        linear_transform_req(x, a, b, c, d) <==> interpolate_fits_i64(
            x as int,
            a as int,
            b as int,
            c as int,
            d as int,
        ),
        linear_transform_req(x, a, b, c, d) ==> linear_transform_spec(x, a, b, c, d)
            == interpolate(x as int, a as int, b as int, c as int, d as int),
{
    if x.sub_req(a) && b.sub_req(a) && b != a {
        let n = x.sub_spec(a);
        let m = b.sub_spec(a);
        assert(n == x - a && m == b - a && m != 0);
        let q = n.div_spec(m);
        if n >= 0 {
            lemma_quotient_bounds(n as int, m as int);
            assert(q == truncated_quotient(n as int, m as int));
        } else {
            lemma_quotient_bounds(-n, m as int);
            if m == -1 {
                assert((-n) / (-1int) == n) by (nonlinear_arith);
            } else {
                assert(q == truncated_quotient(n as int, m as int));
            }
        }
    }
}

/// A quotient is no larger in magnitude than its numerator.
proof fn lemma_quotient_bounds(n: int, m: int)
    requires
        n >= 0,
        m != 0,
    ensures
        -n <= n / m <= n,
        (m != -1 && n > 0) ==> -n < n / m,
{
    if m > 0 {
        assert(0 <= n / m <= n) by (nonlinear_arith)
            requires
                n >= 0,
                m > 0,
        ;
    } else {
        assert(-n <= n / m <= 0) by (nonlinear_arith)
            requires
                n >= 0,
                m < 0,
        ;
        if m != -1 && n > 0 {
            assert(-n < n / m) by (nonlinear_arith)
                requires
                    n > 0,
                    m < -1,
            ;
        }
    }
}

/// The transform is exact at both ends of the interval: `a` goes to `c` and
/// `b` goes to `d`.
pub proof fn lemma_interpolate_endpoints(a: int, b: int, c: int, d: int)
    requires
        a != b,
    ensures
        interpolate(a, a, b, c, d) == c,
        interpolate(b, a, b, c, d) == d,
{
    let m = b - a;
    assert(0int / m == 0) by (nonlinear_arith)
        requires
            m != 0,
    ;
    if m > 0 {
        assert(m / m == 1) by (nonlinear_arith)
            requires
                m > 0,
        ;
    } else {
        assert((-m) / m == -1) by (nonlinear_arith)
            requires
                m < 0,
        ;
    }
}

/// Onto a rising interval the transform is monotonic: with `a < b` and
/// `c <= d`, a larger `x` never maps to a smaller value.
pub proof fn lemma_interpolate_monotonic(x1: int, x2: int, a: int, b: int, c: int, d: int)
    requires
        a < b,
        c <= d,
        x1 <= x2,
    ensures
        interpolate(x1, a, b, c, d) <= interpolate(x2, a, b, c, d),
{
    let m = b - a;
    let n1 = x1 - a;
    let n2 = x2 - a;
    let q1 = truncated_quotient(n1, m);
    let q2 = truncated_quotient(n2, m);
    assert(q1 <= q2) by {
        if n1 >= 0 {
            lemma_div_is_ordered(n1, n2, m);
        } else if n2 < 0 {
            lemma_div_is_ordered(-n2, -n1, m);
        } else {
            lemma_div_is_ordered(0, -n1, m);
            lemma_div_is_ordered(0, n2, m);
        }
    }
    assert(q1 * (d - c) <= q2 * (d - c)) by (nonlinear_arith)
        requires
            q1 <= q2,
            0 <= d - c,
    ;
}

/// On `i64` the transform is exact at both ends of the interval: `a` goes
/// to `c` and `b` goes to `d`.
pub proof fn lemma_linear_transform_endpoints_i64(a: i64, b: i64, c: i64, d: i64)
    requires
        linear_transform_req(a, a, b, c, d),
        linear_transform_req(b, a, b, c, d),
    ensures
        linear_transform_spec(a, a, b, c, d) == c,
        linear_transform_spec(b, a, b, c, d) == d,
{
    lemma_linear_transform_i64(a, a, b, c, d);
    lemma_linear_transform_i64(b, a, b, c, d);
    lemma_interpolate_endpoints(a as int, b as int, c as int, d as int);
}

/// On `i64` the transform onto a rising interval is monotonic: with `a < b`
/// and `c <= d`, a larger `x` never maps to a smaller value.
pub proof fn lemma_linear_transform_monotonic_i64(
    x1: i64,
    x2: i64,
    a: i64,
    b: i64,
    c: i64,
    d: i64,
)
    requires
        a < b,
        c <= d,
        x1 <= x2,
        linear_transform_req(x1, a, b, c, d),
        linear_transform_req(x2, a, b, c, d),
    ensures
        linear_transform_spec(x1, a, b, c, d) <= linear_transform_spec(x2, a, b, c, d),
{
    lemma_linear_transform_i64(x1, a, b, c, d);
    lemma_linear_transform_i64(x2, a, b, c, d);
    lemma_interpolate_monotonic(x1 as int, x2 as int, a as int, b as int, c as int, d as int);
}

/// A point of the plane: its real and its imaginary coordinate.
#[derive(Debug, PartialEq)]
pub struct ComplexPoint<T> {
    pub re: T,
    pub im: T,
}

impl<T: Copy> Clone for ComplexPoint<T> {
    fn clone(&self) -> (copy: Self)
        ensures
            copy == *self,
    {
        *self
    }
}

impl<T: Copy> Copy for ComplexPoint<T> {

}

/// The rectangle of the plane that is shown: the points that the top left
/// and the bottom right corner of the pixel grid stand for.
#[derive(Debug, PartialEq)]
pub struct Viewport<T> {
    pub top_left: ComplexPoint<T>,
    pub bottom_right: ComplexPoint<T>,
}

impl<T: Copy> Clone for Viewport<T> {
    fn clone(&self) -> (copy: Self)
        ensures
            copy == *self,
    {
        *self
    }
}

impl<T: Copy> Copy for Viewport<T> {

}

/// Both coordinates of the point of pixel `(x, y)` are defined in `T`.
pub open spec fn pix_to_cmplx_req<T>(
    top_left_scale: ComplexPoint<T>,
    bottom_right_scale: ComplexPoint<T>,
    x: T,
    y: T,
    origin: T,
    win_width: T,
    win_height: T,
) -> bool where
    T: Copy + Add<T, Output = T> + Div<T, Output = T> + Mul<T, Output = T> + Sub<T, Output = T>,
 {
    &&& linear_transform_req(x, origin, win_width, top_left_scale.re, bottom_right_scale.re)
    &&& linear_transform_req(y, origin, win_height, top_left_scale.im, bottom_right_scale.im)
}

/// The point of the plane that pixel `(x, y)` stands for: each axis is
/// interpolated by itself, columns `origin` to `win_width` onto the real
/// extent of the viewport, rows `origin` to `win_height` onto the imaginary.
pub open spec fn pix_to_cmplx_spec<T>(
    top_left_scale: ComplexPoint<T>,
    bottom_right_scale: ComplexPoint<T>,
    x: T,
    y: T,
    origin: T,
    win_width: T,
    win_height: T,
) -> ComplexPoint<T> where
    T: Copy + Add<T, Output = T> + Div<T, Output = T> + Mul<T, Output = T> + Sub<T, Output = T>,
 {
    ComplexPoint {
        re: linear_transform_spec(x, origin, win_width, top_left_scale.re, bottom_right_scale.re),
        im: linear_transform_spec(y, origin, win_height, top_left_scale.im, bottom_right_scale.im),
    }
}

/// Maps pixel `(x, y)` of a grid of `win_width` by `win_height` pixels to
/// its point in the viewport from `top_left_scale` to `bottom_right_scale`.
/// The pixel need not lie on the grid. `origin` is the zero of `T`.
pub fn pix_to_cmplx<T>(
    top_left_scale: ComplexPoint<T>,
    bottom_right_scale: ComplexPoint<T>,
    x: T,
    y: T,
    origin: T,
    win_width: T,
    win_height: T,
) -> (point: ComplexPoint<T>) where
    T: Copy + Add<T, Output = T> + Div<T, Output = T> + Mul<T, Output = T> + Sub<T, Output = T>,

    requires
        obeys_arithmetic::<T>(),
        pix_to_cmplx_req(top_left_scale, bottom_right_scale, x, y, origin, win_width, win_height),
    ensures
        point == pix_to_cmplx_spec(
            top_left_scale,
            bottom_right_scale,
            x,
            y,
            origin,
            win_width,
            win_height,
        ),
{
    let re = linear_transform::<T>(x, origin, win_width, top_left_scale.re, bottom_right_scale.re);
    let im = linear_transform::<T>(
        y,
        origin,
        win_height,
        top_left_scale.im,
        bottom_right_scale.im,
    );
    ComplexPoint { re, im }
}

/// A rectangle of pixels: the columns of its left and right edge, the rows
/// of its top and bottom edge.
#[derive(Debug, PartialEq)]
pub struct PixelRect<T> {
    pub left: T,
    pub top: T,
    pub right: T,
    pub bottom: T,
}

impl<T: Copy> Clone for PixelRect<T> {
    fn clone(&self) -> (copy: Self)
        ensures
            copy == *self,
    {
        *self
    }
}

impl<T: Copy> Copy for PixelRect<T> {

}

/// Both corners of `selected` have a point in `current`.
pub open spec fn remap_req<T>(
    current: Viewport<T>,
    origin: T,
    win_width: T,
    win_height: T,
    selected: PixelRect<T>,
) -> bool where
    T: Copy + Add<T, Output = T> + Div<T, Output = T> + Mul<T, Output = T> + Sub<T, Output = T>,
 {
    &&& pix_to_cmplx_req(
        current.top_left,
        current.bottom_right,
        selected.left,
        selected.top,
        origin,
        win_width,
        win_height,
    )
    &&& pix_to_cmplx_req(
        current.top_left,
        current.bottom_right,
        selected.right,
        selected.bottom,
        origin,
        win_width,
        win_height,
    )
}

/// The viewport whose corners are the points that the corners of `selected`
/// have in `current`.
pub open spec fn remap_spec<T>(
    current: Viewport<T>,
    origin: T,
    win_width: T,
    win_height: T,
    selected: PixelRect<T>,
) -> Viewport<T> where
    T: Copy + Add<T, Output = T> + Div<T, Output = T> + Mul<T, Output = T> + Sub<T, Output = T>,
 {
    Viewport {
        top_left: pix_to_cmplx_spec(
            current.top_left,
            current.bottom_right,
            selected.left,
            selected.top,
            origin,
            win_width,
            win_height,
        ),
        bottom_right: pix_to_cmplx_spec(
            current.top_left,
            current.bottom_right,
            selected.right,
            selected.bottom,
            origin,
            win_width,
            win_height,
        ),
    }
}

/// The next viewport after the pixel rectangle `selected` was chosen on a
/// grid of `win_width` by `win_height` pixels that shows `current`: both
/// corners are mapped through `current`.
pub fn remap<T>(
    current: Viewport<T>,
    origin: T,
    win_width: T,
    win_height: T,
    selected: PixelRect<T>,
) -> (next: Viewport<T>) where
    T: Copy + Add<T, Output = T> + Div<T, Output = T> + Mul<T, Output = T> + Sub<T, Output = T>,

    requires
        obeys_arithmetic::<T>(),
        remap_req(current, origin, win_width, win_height, selected),
    ensures
        next == remap_spec(current, origin, win_width, win_height, selected),
{
    let top_left = pix_to_cmplx(
        current.top_left,
        current.bottom_right,
        selected.left,
        selected.top,
        origin,
        win_width,
        win_height,
    );
    let bottom_right = pix_to_cmplx(
        current.top_left,
        current.bottom_right,
        selected.right,
        selected.bottom,
        origin,
        win_width,
        win_height,
    );
    Viewport { top_left, bottom_right }
}

/// On integers, selecting the whole grid changes nothing: the rectangle
/// from `(0, 0)` to `(win_width, win_height)` maps to the current viewport.
pub proof fn lemma_remap_full_frame_i64(current: Viewport<i64>, win_width: i64, win_height: i64)
    requires
        remap_req(
            current,
            0,
            win_width,
            win_height,
            PixelRect { left: 0, top: 0, right: win_width, bottom: win_height },
        ),
    ensures
        remap_spec(
            current,
            0,
            win_width,
            win_height,
            PixelRect { left: 0, top: 0, right: win_width, bottom: win_height },
        ) == current,
{
    let tl = current.top_left;
    let br = current.bottom_right;
    lemma_linear_transform_endpoints_i64(0, win_width, tl.re, br.re);
    lemma_linear_transform_endpoints_i64(0, win_height, tl.im, br.im);
}

} // verus!
