//! Shape baking: folding a shape's transform into its own coordinates.
use vstd::prelude::*;

use svgdom::types::Length;

use crate::document::Document;
use crate::geometry::{map_point, mapped_point, scale_factor, scale_factor_of, scale_length, scaled_len};
use crate::model::{AttrValue, Attrs, Kind, Len, Unit, Xform};
use crate::validity::{is_shape, is_valid_shape};

verus! {

/// A unitless length value.
pub open spec fn unitless(v: Length) -> Option<AttrValue> {
    Some(AttrValue::Length(Len { value: v, unit: Unit::Unitless }))
}

/// A coordinate's magnitude, `z` (zero) where it is missing or not a length.
pub open spec fn coord_value(v: Option<AttrValue>, z: Length) -> Length {
    match v {
        Some(AttrValue::Length(l)) => l.value,
        _ => z,
    }
}

/// The point held by the position attributes `x` and `y`, mapped through `t`.
pub open spec fn mapped(t: Xform, x: Option<AttrValue>, y: Option<AttrValue>, z: Length) -> (Length, Length) {
    mapped_point(t.ts, coord_value(x, z), coord_value(y, z))
}

/// A size after baking: a length times the scale factor of `t`, in its own
/// unit, where `t` scales; anything else is kept as it was.
pub open spec fn scaled(o: Option<AttrValue>, t: Xform) -> Option<AttrValue> {
    match o {
        Some(AttrValue::Length(l)) => if t.has_scale {
            Some(AttrValue::Length(Len { value: scaled_len(l.value, t.ts), unit: l.unit }))
        } else {
            o
        },
        _ => o,
    }
}

/// The stroke width of element `i`: its own, else that of its nearest
/// ancestor that sets one, else none.
pub open spec fn inherited_stroke(d: &Document, i: int) -> Option<Len>
    decreases i,
{
    if 0 <= i < d.len() {
        match d.attr(i).stroke_width {
            Some(AttrValue::Length(l)) => Some(l),
            _ => match d.parents@[i] {
                Some(p) => if 0 <= (p as int) < i {
                    inherited_stroke(d, p as int)
                } else {
                    None
                },
                None => None,
            },
        }
    } else {
        None
    }
}

/// The stroke width after baking with `t`, where `w` is the width in effect
/// before: where `t` scales, `w` times the scale factor, in the unit of `w`
/// (where nothing set a width, the initial width of one times the factor);
/// else the element's own value, kept.
pub open spec fn rescaled_stroke(o: Option<AttrValue>, t: Xform, w: Option<Len>) -> Option<AttrValue> {
    if t.has_scale {
        Some(
            AttrValue::Length(
                match w {
                    Some(l) => Len { value: scaled_len(l.value, t.ts), unit: l.unit },
                    None => Len { value: scale_factor_of(t.ts), unit: Unit::Unitless },
                },
            ),
        )
    } else {
        o
    }
}

/// The attributes of a `k` with attributes `o` after baking `t` into it, with
/// `w` the stroke width in effect and `z` the zero that missing positions
/// stand for: the transform is gone, the positions are mapped through `t`, the
/// sizes and the stroke width rescaled, and nothing else is touched.
pub open spec fn baked(k: Kind, o: Attrs, t: Xform, w: Option<Len>, z: Length) -> Attrs {
    let base = Attrs { transform: None, stroke_width: rescaled_stroke(o.stroke_width, t, w), ..o };
    match k {
        Kind::Rect => Attrs {
            x: unitless(mapped(t, o.x, o.y, z).0),
            y: unitless(mapped(t, o.x, o.y, z).1),
            width: scaled(o.width, t),
            height: scaled(o.height, t),
            rx: scaled(o.rx, t),
            ry: scaled(o.ry, t),
            ..base
        },
        Kind::Circle => Attrs {
            cx: unitless(mapped(t, o.cx, o.cy, z).0),
            cy: unitless(mapped(t, o.cx, o.cy, z).1),
            r: scaled(o.r, t),
            ..base
        },
        Kind::Ellipse => Attrs {
            cx: unitless(mapped(t, o.cx, o.cy, z).0),
            cy: unitless(mapped(t, o.cx, o.cy, z).1),
            rx: scaled(o.rx, t),
            ry: scaled(o.ry, t),
            ..base
        },
        Kind::Line => Attrs {
            x1: unitless(mapped(t, o.x1, o.y1, z).0),
            y1: unitless(mapped(t, o.x1, o.y1, z).1),
            x2: unitless(mapped(t, o.x2, o.y2, z).0),
            y2: unitless(mapped(t, o.x2, o.y2, z).1),
            ..base
        },
        _ => base,
    }
}

/// What baking leaves in element `i` of `d`, given the new attributes `a`
/// and the zero `z` that missing positions stand for.
pub open spec fn bake_result(d: &Document, i: int, a: Attrs, z: Length) -> bool {
    if d.bakeable_at(i) {
        match d.attr(i).transform {
            Some(AttrValue::Transform(t)) => a == baked(d.kind(i), d.attr(i), t, inherited_stroke(d, i), z),
            _ => false,
        }
    } else {
        a == d.attr(i)
    }
}

/// Every element of `d2` is what baking leaves of the same element of `d`.
pub open spec fn bake_all(d: &Document, d2: &Document, z: Length) -> bool {
    forall|i: int| 0 <= i < d.len() ==> bake_result(d, i, #[trigger] d2.attr(i), z)
}

fn length_or_zero(v: Option<AttrValue>, zero: &Length) -> (r: Length)
    ensures
        r == coord_value(v, *zero),
{
    match v {
        Some(AttrValue::Length(l)) => l.value,
        _ => *zero,
    }
}

/// Maps the point held by two position attributes through `t`.
fn map_position(x: Option<AttrValue>, y: Option<AttrValue>, t: &Xform, zero: &Length) -> (r: (
    Option<AttrValue>,
    Option<AttrValue>,
))
    ensures
        r.0 == unitless(mapped(*t, x, y, *zero).0),
        r.1 == unitless(mapped(*t, x, y, *zero).1),
{
    let (nx, ny) = map_point(&t.ts, &length_or_zero(x, zero), &length_or_zero(y, zero));
    (
        Some(AttrValue::Length(Len { value: nx, unit: Unit::Unitless })),
        Some(AttrValue::Length(Len { value: ny, unit: Unit::Unitless })),
    )
}

/// Multiplies a size attribute by the scale factor of `t`, where `t` scales.
fn scale_size(v: Option<AttrValue>, t: &Xform) -> (r: Option<AttrValue>)
    ensures
        r == scaled(v, *t),
{
    if t.has_scale {
        if let Some(AttrValue::Length(l)) = v {
            return Some(AttrValue::Length(Len { value: scale_length(&l.value, &t.ts), unit: l.unit }));
        }
    }
    v
}

/// The stroke width in effect at element `i`.
fn effective_stroke(doc: &Document, i: usize) -> (r: Option<Len>)
    requires
        doc.wf(),
        i < doc.len(),
    ensures
        r == inherited_stroke(doc, i as int),
{
    let mut j = i;
    loop
        invariant
            doc.wf(),
            j < doc.len(),
            inherited_stroke(doc, j as int) == inherited_stroke(doc, i as int),
        decreases j,
    {
        if let Some(AttrValue::Length(l)) = doc.attrs[j].stroke_width {
            return Some(l);
        }
        match doc.parents[j] {
            Some(p) => {
                assert(doc.parents@[j as int] == doc.parents@[j as int]);
                j = p;
            },
            None => {
                return None;
            },
        }
    }
}

/// The new stroke width: where `t` scales, the effective width times the scale
/// factor (the initial width of one where nothing sets it); else unchanged.
fn rescale_stroke(own: Option<AttrValue>, effective: Option<Len>, t: &Xform) -> (r: Option<AttrValue>)
    ensures
        r == rescaled_stroke(own, *t, effective),
{
    if t.has_scale {
        let w = match effective {
            Some(l) => Len { value: scale_length(&l.value, &t.ts), unit: l.unit },
            None => Len { value: scale_factor(&t.ts), unit: Unit::Unitless },
        };
        Some(AttrValue::Length(w))
    } else {
        own
    }
}

/// Folds `t` into the geometry of a shape of kind `k` with attributes `a`.
pub fn bake_attrs(k: Kind, a: Attrs, t: &Xform, effective: Option<Len>, zero: &Length) -> (r: Attrs)
    requires
        is_shape(k),
    ensures
        r == baked(k, a, *t, effective, *zero),
{
    let mut r = a;
    r.transform = None;
    r.stroke_width = rescale_stroke(a.stroke_width, effective, t);
    match k {
        Kind::Rect => {
            let (x, y) = map_position(a.x, a.y, t, zero);
            r.x = x;
            r.y = y;
            r.width = scale_size(a.width, t);
            r.height = scale_size(a.height, t);
            r.rx = scale_size(a.rx, t);
            r.ry = scale_size(a.ry, t);
        },
        Kind::Circle => {
            let (x, y) = map_position(a.cx, a.cy, t, zero);
            r.cx = x;
            r.cy = y;
            r.r = scale_size(a.r, t);
        },
        Kind::Ellipse => {
            let (x, y) = map_position(a.cx, a.cy, t, zero);
            r.cx = x;
            r.cy = y;
            r.rx = scale_size(a.rx, t);
            r.ry = scale_size(a.ry, t);
        },
        _ => {
            let (x1, y1) = map_position(a.x1, a.y1, t, zero);
            let (x2, y2) = map_position(a.x2, a.y2, t, zero);
            r.x1 = x1;
            r.y1 = y1;
            r.x2 = x2;
            r.y2 = y2;
        },
    }
    r
}

/// Bakes every shape that carries a transform and passes the validity checks;
/// every other element is left exactly as it was.
pub fn bake_shapes(doc: &mut Document)
    requires
        old(doc).wf(),
    ensures
        final(doc).wf(),
        final(doc).same_shape(old(doc)),
        exists|z: Length| #[trigger] bake_all(old(doc), final(doc), z),
{
    let ghost d0 = *doc;
    let zero = Length::zero();
    let n = doc.kinds.len();
    // The stroke widths in effect are read before any element changes.
    let mut strokes: Vec<Option<Len>> = Vec::new();
    let mut i: usize = 0;
    while i < n
        invariant
            d0 == *doc,
            doc.wf(),
            i <= n,
            n == doc.len(),
            strokes@.len() == i,
            forall|j: int| 0 <= j < i ==> strokes@[j] == inherited_stroke(&d0, j),
        decreases n - i,
    {
        strokes.push(effective_stroke(doc, i));
        i = i + 1;
    }
    let mut i: usize = 0;
    while i < n
        invariant
            strokes@.len() == n,
            forall|j: int| 0 <= j < n ==> strokes@[j] == inherited_stroke(&d0, j),
            d0.wf(),
            doc.wf(),
            doc.same_shape(&d0),
            i <= n,
            n == d0.len(),
            forall|j: int| 0 <= j < i ==> bake_result(&d0, j, #[trigger] doc.attr(j), zero),
            forall|j: int| i <= j < n ==> #[trigger] doc.attr(j) == d0.attr(j),
        decreases n - i,
    {
        let ghost before = *doc;
        let k = doc.kinds[i];
        let a = doc.attrs[i];
        if a.transform.is_some() && is_valid_shape(k, &a) {
            if let Some(AttrValue::Transform(t)) = a.transform {
                let r = bake_attrs(k, a, &t, strokes[i], &zero);
                doc.attrs.set(i, r);
            }
        }
        proof {
            assert forall|j: int| 0 <= j < i + 1 implies bake_result(&d0, j, #[trigger] doc.attr(j), zero) by {
                if j < i {
                    assert(bake_result(&d0, j, before.attr(j), zero));
                }
            }
            assert forall|j: int| i + 1 <= j < n implies #[trigger] doc.attr(j) == d0.attr(j) by {
                assert(before.attr(j) == d0.attr(j));
            }
        }
        i = i + 1;
    }
    assert(bake_all(&d0, doc, zero));
}

} // verus!
