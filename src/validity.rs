//! Validity checks: whether folding a transform into an element is lossless.
use vstd::prelude::*;

use crate::model::{AttrValue, Attrs, Kind, Unit};

verus! {

pub open spec fn is_shape(k: Kind) -> bool {
    k == Kind::Rect || k == Kind::Circle || k == Kind::Ellipse || k == Kind::Line
}

/// No transform, or one without skew and without non-proportional scale.
/// A transform attribute that holds anything but a transform fails.
pub open spec fn transform_ok(a: Attrs) -> bool {
    match a.transform {
        None => true,
        Some(AttrValue::Transform(t)) => t.bakeable(),
        Some(_) => false,
    }
}

pub open spec fn not_linked(v: Option<AttrValue>) -> bool {
    !(v matches Some(AttrValue::FuncLink))
}

/// No paint or filter by reference, no mask, no clip path.
pub open spec fn attrs_ok(a: Attrs) -> bool {
    not_linked(a.fill) && not_linked(a.stroke) && not_linked(a.filter) && a.mask.is_none()
        && a.clip_path.is_none()
}

/// A coordinate is fine when absent or a unitless length; a value of any
/// other kind fails.
pub open spec fn coord_ok(v: Option<AttrValue>) -> bool {
    match v {
        None => true,
        Some(AttrValue::Length(l)) => l.unit == Unit::Unitless,
        Some(_) => false,
    }
}

/// Every position and size attribute of a shape is unitless; other kinds fail.
pub open spec fn coords_ok(k: Kind, a: Attrs) -> bool {
    match k {
        Kind::Rect => coord_ok(a.x) && coord_ok(a.y) && coord_ok(a.width) && coord_ok(a.height)
            && coord_ok(a.rx) && coord_ok(a.ry),
        Kind::Circle => coord_ok(a.cx) && coord_ok(a.cy) && coord_ok(a.r),
        Kind::Ellipse => coord_ok(a.cx) && coord_ok(a.cy) && coord_ok(a.rx) && coord_ok(a.ry),
        Kind::Line => coord_ok(a.x1) && coord_ok(a.y1) && coord_ok(a.x2) && coord_ok(a.y2),
        _ => false,
    }
}

/// A shape that passes all three validity checks.
pub open spec fn shape_ok(k: Kind, a: Attrs) -> bool {
    is_shape(k) && transform_ok(a) && attrs_ok(a) && coords_ok(k, a)
}

/// A shape whose transform is to be folded into its coordinates.
pub open spec fn bakeable(k: Kind, a: Attrs) -> bool {
    a.transform.is_some() && shape_ok(k, a)
}

pub fn is_valid_transform(a: &Attrs) -> (r: bool)
    ensures
        r == transform_ok(*a),
{
    match a.transform {
        None => true,
        Some(AttrValue::Transform(t)) => !(t.has_scale && !t.proportional) && !t.skew,
        Some(_) => false,
    }
}

fn is_linked(v: Option<AttrValue>) -> (r: bool)
    ensures
        r == !not_linked(v),
{
    match v {
        Some(AttrValue::FuncLink) => true,
        _ => false,
    }
}

pub fn is_valid_attrs(a: &Attrs) -> (r: bool)
    ensures
        r == attrs_ok(*a),
{
    !is_linked(a.fill) && !is_linked(a.stroke) && !is_linked(a.filter) && a.mask.is_none()
        && a.clip_path.is_none()
}

fn is_valid_coord(v: Option<AttrValue>) -> (r: bool)
    ensures
        r == coord_ok(v),
{
    match v {
        None => true,
        Some(AttrValue::Length(l)) => l.unit == Unit::Unitless,
        Some(_) => false,
    }
}

pub fn is_valid_coords(k: Kind, a: &Attrs) -> (r: bool)
    ensures
        r == coords_ok(k, *a),
{
    match k {
        Kind::Rect => is_valid_coord(a.x) && is_valid_coord(a.y) && is_valid_coord(a.width)
            && is_valid_coord(a.height) && is_valid_coord(a.rx) && is_valid_coord(a.ry),
        Kind::Circle => is_valid_coord(a.cx) && is_valid_coord(a.cy) && is_valid_coord(a.r),
        Kind::Ellipse => is_valid_coord(a.cx) && is_valid_coord(a.cy) && is_valid_coord(a.rx)
            && is_valid_coord(a.ry),
        Kind::Line => is_valid_coord(a.x1) && is_valid_coord(a.y1) && is_valid_coord(a.x2)
            && is_valid_coord(a.y2),
        _ => false,
    }
}

/// All the validity checks for one shape.
pub fn is_valid_shape(k: Kind, a: &Attrs) -> (r: bool)
    ensures
        r == shape_ok(k, *a),
{
    let shape = match k {
        Kind::Rect | Kind::Circle | Kind::Ellipse | Kind::Line => true,
        _ => false,
    };
    shape && is_valid_transform(a) && is_valid_attrs(a) && is_valid_coords(k, a)
}

} // verus!
