//! Projection of geographic points onto the plot.

use vstd::prelude::*;
use vstd::arithmetic::div_mod::lemma_div_is_ordered;

verus! {

/// Nominal half-extent of the plot along each axis, in plot units.
pub const DISPLAY_RADIUS: i64 = 400;

/// Number of longitude steps that span the same plot distance as one latitude step.
pub const LONGITUDE_ASPECT: i64 = 3;

/// No projection lies farther than this from the origin on either axis.
pub const PLOT_LIMIT: i64 = 1_717_986_918_400;

/// A point on the globe, in microdegrees.
#[derive(Clone, Copy, Debug, PartialEq, Eq, Structural)]
pub struct GeoPoint {
    pub latitude: i32,
    pub longitude: i32,
}

/// A point of the plot, in plot units. Not clipped to the display radius.
#[derive(Clone, Copy, Debug, PartialEq, Eq, Structural)]
pub struct PlotPoint {
    pub x: i64,
    pub y: i64,
}

/// Quotient of `n` by a positive `d`, rounded toward zero.
pub open spec fn quotient_toward_zero(n: int, d: int) -> int {
    if n >= 0 {
        n / d
    } else {
        -((-n) / d)
    }
}

/// Plot coordinate of `value` on an axis whose origin is at `origin` and on
/// which `step` microdegrees span one display radius.
pub open spec fn axis_offset(value: int, origin: int, step: int) -> int {
    quotient_toward_zero((value - origin) * DISPLAY_RADIUS, step)
}

/// Latitude step and longitude step for a zoom scale.
pub open spec fn steps_of_scale(scale: int) -> (int, int) {
    (scale, scale * LONGITUDE_ASPECT)
}

/// Plot position of `point` as seen from `reference` at zoom `scale`.
pub open spec fn projection(point: GeoPoint, reference: GeoPoint, scale: int) -> PlotPoint {
    PlotPoint {
        x: axis_offset(
            point.longitude as int,
            reference.longitude as int,
            steps_of_scale(scale).1,
        ) as i64,
        y: axis_offset(
            point.latitude as int,
            reference.latitude as int,
            steps_of_scale(scale).0,
        ) as i64,
    }
}

/// The quotient toward zero never exceeds the dividend in magnitude.
pub proof fn lemma_quotient_bounded(n: int, d: int)
    requires
        d > 0,
    ensures
        n >= 0 ==> 0 <= quotient_toward_zero(n, d) <= n,
        n <= 0 ==> n <= quotient_toward_zero(n, d) <= 0,
{
    if n >= 0 {
        assert(0 <= n / d <= n) by (nonlinear_arith)
            requires
                n >= 0,
                d > 0,
        ;
    } else {
        let m = -n;
        assert(0 <= m / d <= m) by (nonlinear_arith)
            requires
                m >= 0,
                d > 0,
        ;
    }
}

/// The quotient toward zero keeps the order of the dividends.
pub proof fn lemma_quotient_ordered(a: int, b: int, d: int)
    requires
        a <= b,
        d > 0,
    ensures
        quotient_toward_zero(a, d) <= quotient_toward_zero(b, d),
{
    lemma_quotient_bounded(a, d);
    lemma_quotient_bounded(b, d);
    if a >= 0 {
        lemma_div_is_ordered(a, b, d);
    } else if b < 0 {
        lemma_div_is_ordered(-b, -a, d);
    }
}

/// Latitude step and longitude step, in microdegrees per display radius, for
/// a zoom scale.
pub fn scale_lat_long(scale: u32) -> (steps: (i64, i64))
    ensures
        steps.0 == steps_of_scale(scale as int).0,
        steps.1 == steps_of_scale(scale as int).1,
{
    let lat_step: i64 = scale as i64;
    let long_step: i64 = lat_step * LONGITUDE_ASPECT;
    (lat_step, long_step)
}

/// Plot coordinate of `value` on one axis.
pub fn offset_on_axis(value: i32, origin: i32, step: i64) -> (r: i64)
    requires
        step > 0,
    ensures
        r == axis_offset(value as int, origin as int, step as int),
        -PLOT_LIMIT <= r <= PLOT_LIMIT,
{
    let scaled: i64 = (value as i64 - origin as i64) * DISPLAY_RADIUS;
    proof {
        lemma_quotient_bounded(scaled as int, step as int);
    }
    if scaled >= 0 {
        scaled / step
    } else {
        -((-scaled) / step)
    }
}

/// Projects `point` onto the plot whose origin is `reference`.
///
/// One display radius spans `scale` microdegrees of latitude and three times
/// as many of longitude.
pub fn project(point: GeoPoint, reference: GeoPoint, scale: u32) -> (r: PlotPoint)
    requires
        scale > 0,
    ensures
        r == projection(point, reference, scale as int),
        -PLOT_LIMIT <= r.x <= PLOT_LIMIT,
        -PLOT_LIMIT <= r.y <= PLOT_LIMIT,
{
    let (lat_step, long_step) = scale_lat_long(scale);
    let x = offset_on_axis(point.longitude, reference.longitude, long_step);
    let y = offset_on_axis(point.latitude, reference.latitude, lat_step);
    PlotPoint { x, y }
}

/// The reference point itself lies at the plot's origin, at every positive scale.
pub proof fn lemma_reference_at_origin(reference: GeoPoint, scale: int)
    requires
        scale > 0,
    ensures
        projection(reference, reference, scale) == (PlotPoint { x: 0, y: 0 }),
{
    assert(0int / scale == 0) by (nonlinear_arith)
        requires
            scale > 0,
    ;
    assert(0int / (scale * LONGITUDE_ASPECT) == 0) by (nonlinear_arith)
        requires
            scale > 0,
    ;
}

/// The plot coordinate on one axis is the axis offset itself: it fits the
/// coordinate's type and does not exceed the plot limit.
pub proof fn lemma_offset_fits(value: i32, origin: i32, step: int)
    requires
        step > 0,
    ensures
        -PLOT_LIMIT <= axis_offset(value as int, origin as int, step) <= PLOT_LIMIT,
{
    lemma_quotient_bounded((value - origin) * DISPLAY_RADIUS, step);
}

/// At any positive scale, a point that lies no farther east (north) than
/// another is plotted no farther right (up).
pub proof fn lemma_projection_ordered(p: GeoPoint, q: GeoPoint, reference: GeoPoint, scale: int)
    requires
        scale > 0,
    ensures
        p.longitude <= q.longitude ==> projection(p, reference, scale).x <= projection(
            q,
            reference,
            scale,
        ).x,
        p.latitude <= q.latitude ==> projection(p, reference, scale).y <= projection(
            q,
            reference,
            scale,
        ).y,
{
    let (lat_step, long_step) = steps_of_scale(scale);
    lemma_offset_fits(p.longitude, reference.longitude, long_step);
    lemma_offset_fits(q.longitude, reference.longitude, long_step);
    lemma_offset_fits(p.latitude, reference.latitude, lat_step);
    lemma_offset_fits(q.latitude, reference.latitude, lat_step);
    if p.longitude <= q.longitude {
        lemma_quotient_ordered(
            (p.longitude - reference.longitude) * DISPLAY_RADIUS,
            (q.longitude - reference.longitude) * DISPLAY_RADIUS,
            long_step,
        );
    }
    if p.latitude <= q.latitude {
        lemma_quotient_ordered(
            (p.latitude - reference.latitude) * DISPLAY_RADIUS,
            (q.latitude - reference.latitude) * DISPLAY_RADIUS,
            lat_step,
        );
    }
}

/// Changing the scale never reverses the order of two points on either
/// axis: if one is plotted left of (below) the other at one positive scale,
/// it is not plotted right of (above) it at any other.
pub proof fn lemma_scale_keeps_order(
    p: GeoPoint,
    q: GeoPoint,
    reference: GeoPoint,
    scale: int,
    other_scale: int,
)
    requires
        scale > 0,
        other_scale > 0,
    ensures
        projection(p, reference, scale).x < projection(q, reference, scale).x ==> projection(
            p,
            reference,
            other_scale,
        ).x <= projection(q, reference, other_scale).x,
        projection(p, reference, scale).y < projection(q, reference, scale).y ==> projection(
            p,
            reference,
            other_scale,
        ).y <= projection(q, reference, other_scale).y,
{
    lemma_projection_ordered(q, p, reference, scale);
    lemma_projection_ordered(p, q, reference, other_scale);
}

} // verus!
