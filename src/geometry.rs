//! The affine arithmetic of svgdom, which this library consumes as is.
use vstd::prelude::*;

use svgdom::types::{Length, LengthUnit, Transform};

verus! {

#[verifier::external_type_specification]
#[verifier::external_body]
pub struct ExTransform(Transform);

#[verifier::external_type_specification]
#[verifier::external_body]
pub struct ExLength(Length);

/// Whether either scale factor of `ts` differs from one, as svgdom decides it.
pub uninterp spec fn has_scale_of(ts: Transform) -> bool;

/// Whether both scale factors of `ts` agree, as svgdom decides it.
pub uninterp spec fn proportional_of(ts: Transform) -> bool;

/// Whether `ts` holds a skew part, as svgdom decides it.
pub uninterp spec fn skew_of(ts: Transform) -> bool;

/// The matrix product: `t` applied first, then `ts`.
pub uninterp spec fn appended(ts: Transform, t: Transform) -> Transform;

/// The point `(x, y)` mapped through `ts`, as unitless lengths.
pub uninterp spec fn mapped_point(ts: Transform, x: Length, y: Length) -> (Length, Length);

/// `l` times the horizontal scale factor of `ts`, in the unit of `l`.
pub uninterp spec fn scaled_len(l: Length, ts: Transform) -> Length;

/// The horizontal scale factor of `ts`, as a unitless length.
pub uninterp spec fn scale_factor_of(ts: Transform) -> Length;

/// Relies on svgdom's `Transform::has_scale`: depends on the matrix alone.
pub assume_specification[ svgdom::types::Transform::has_scale ](ts: &svgdom::types::Transform) -> (r: bool)
    ensures
        r == has_scale_of(*ts),
;

/// Relies on svgdom's `Transform::has_proportional_scale`: depends on the matrix alone.
pub assume_specification[ svgdom::types::Transform::has_proportional_scale ](ts: &svgdom::types::Transform) -> (r: bool)
    ensures
        r == proportional_of(*ts),
;

/// Relies on svgdom's `Transform::has_skew`: depends on the matrix alone.
pub assume_specification[ svgdom::types::Transform::has_skew ](ts: &svgdom::types::Transform) -> (r: bool)
    ensures
        r == skew_of(*ts),
;

/// Relies on svgdom's `Transform::append`: `ts` becomes the product of the two
/// matrices, which depends on them alone.
pub assume_specification[ svgdom::types::Transform::append ](ts: &mut svgdom::types::Transform, t: &svgdom::types::Transform)
    ensures
        *final(ts) == appended(*old(ts), *t),
;

/// Relies on svgdom's `Length::zero`: a unitless zero.
pub assume_specification[ svgdom::types::Length::zero ]() -> svgdom::types::Length;

/// Relies on svgdom's `Transform::apply`: maps the point `(x, y)` through `ts`;
/// both results are written as unitless lengths.
#[verifier::external_body]
pub(crate) fn map_point(ts: &Transform, x: &Length, y: &Length) -> (r: (Length, Length))
    ensures
        r == mapped_point(*ts, *x, *y),
{
    let (nx, ny) = ts.apply(x.num, y.num);
    (Length::new(nx, LengthUnit::None), Length::new(ny, LengthUnit::None))
}

/// Relies on svgdom's `Transform::get_scale`: `l` multiplied by the horizontal
/// scale factor of `ts`, in the unit of `l`.
#[verifier::external_body]
pub(crate) fn scale_length(l: &Length, ts: &Transform) -> (r: Length)
    ensures
        r == scaled_len(*l, *ts),
{
    let (sx, _) = ts.get_scale();
    Length::new(l.num * sx, l.unit)
}

/// Relies on svgdom's `Transform::get_scale`: the horizontal scale factor of
/// `ts` as a unitless length.
#[verifier::external_body]
pub(crate) fn scale_factor(ts: &Transform) -> (r: Length)
    ensures
        r == scale_factor_of(*ts),
{
    let (sx, _) = ts.get_scale();
    Length::new(sx, LengthUnit::None)
}

} // verus!
