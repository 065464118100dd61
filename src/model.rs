//! The document model: element kinds, attribute values and attribute sets.
use vstd::prelude::*;

use svgdom::types::{Length, Transform};

use crate::geometry::{has_scale_of, proportional_of, skew_of};

verus! {

/// What an element is, as far as transform baking cares.
#[derive(Clone, Copy, PartialEq, Eq, Structural, Debug)]
pub enum Kind {
    Group,
    Rect,
    Circle,
    Ellipse,
    Line,
    Other,
}

/// The unit class of a length: bare, physical (px, in, em, ...), or a percentage.
#[derive(Clone, Copy, PartialEq, Eq, Structural, Debug)]
pub enum Unit {
    Unitless,
    Physical,
    Percent,
}

/// A length: its magnitude as svgdom holds it, and the unit class the rules read.
#[derive(Clone, Copy, Debug)]
pub struct Len {
    pub value: Length,
    pub unit: Unit,
}

/// An affine transform, with the facts about its decomposition that were
/// read from it when it was made.
#[derive(Clone, Copy, Debug)]
pub struct Xform {
    pub ts: Transform,
    pub has_scale: bool,
    pub proportional: bool,
    pub skew: bool,
}

/// An attribute value, closed over the kinds this library distinguishes.
#[derive(Clone, Copy, Debug)]
pub enum AttrValue {
    Length(Len),
    Transform(Xform),
    /// A functional reference to another element, such as `url(#id)`.
    FuncLink,
    Color,
    Other,
}

/// The attributes this library reads or writes.
#[derive(Clone, Copy, PartialEq, Eq, Structural, Debug)]
pub enum AttrId {
    X,
    Y,
    Width,
    Height,
    Rx,
    Ry,
    Cx,
    Cy,
    R,
    X1,
    Y1,
    X2,
    Y2,
    Transform,
    Fill,
    Stroke,
    Filter,
    Mask,
    ClipPath,
    StrokeWidth,
}

/// An element's attribute set: at most one value per attribute.
#[derive(Clone, Copy, Debug)]
pub struct Attrs {
    pub x: Option<AttrValue>,
    pub y: Option<AttrValue>,
    pub width: Option<AttrValue>,
    pub height: Option<AttrValue>,
    pub rx: Option<AttrValue>,
    pub ry: Option<AttrValue>,
    pub cx: Option<AttrValue>,
    pub cy: Option<AttrValue>,
    pub r: Option<AttrValue>,
    pub x1: Option<AttrValue>,
    pub y1: Option<AttrValue>,
    pub x2: Option<AttrValue>,
    pub y2: Option<AttrValue>,
    pub transform: Option<AttrValue>,
    pub fill: Option<AttrValue>,
    pub stroke: Option<AttrValue>,
    pub filter: Option<AttrValue>,
    pub mask: Option<AttrValue>,
    pub clip_path: Option<AttrValue>,
    pub stroke_width: Option<AttrValue>,
}

impl Xform {
    /// Wraps `ts`, reading its decomposition once.
    pub fn new(ts: Transform) -> (r: Xform)
        ensures
            r.ts == ts,
            r.consistent(),
    {
        let has_scale = ts.has_scale();
        let proportional = ts.has_proportional_scale();
        let skew = ts.has_skew();
        Xform { ts, has_scale, proportional, skew }
    }

    /// The decomposition facts are those svgdom reads from `ts`.
    pub open spec fn consistent(self) -> bool {
        &&& self.has_scale == has_scale_of(self.ts)
        &&& self.proportional == proportional_of(self.ts)
        &&& self.skew == skew_of(self.ts)
    }

    /// Whether the transform can be folded into a single scale factor:
    /// no skew, and no scale unless both factors agree.
    pub open spec fn bakeable(self) -> bool {
        !(self.has_scale && !self.proportional) && !self.skew
    }
}

impl Attrs {
    /// An attribute set with nothing in it.
    pub fn empty() -> (r: Attrs)
        ensures
            forall|id: AttrId| r.get(id).is_none(),
    {
        Attrs {
            x: None,
            y: None,
            width: None,
            height: None,
            rx: None,
            ry: None,
            cx: None,
            cy: None,
            r: None,
            x1: None,
            y1: None,
            x2: None,
            y2: None,
            transform: None,
            fill: None,
            stroke: None,
            filter: None,
            mask: None,
            clip_path: None,
            stroke_width: None,
        }
    }

    pub open spec fn get(self, id: AttrId) -> Option<AttrValue> {
        match id {
            AttrId::X => self.x,
            AttrId::Y => self.y,
            AttrId::Width => self.width,
            AttrId::Height => self.height,
            AttrId::Rx => self.rx,
            AttrId::Ry => self.ry,
            AttrId::Cx => self.cx,
            AttrId::Cy => self.cy,
            AttrId::R => self.r,
            AttrId::X1 => self.x1,
            AttrId::Y1 => self.y1,
            AttrId::X2 => self.x2,
            AttrId::Y2 => self.y2,
            AttrId::Transform => self.transform,
            AttrId::Fill => self.fill,
            AttrId::Stroke => self.stroke,
            AttrId::Filter => self.filter,
            AttrId::Mask => self.mask,
            AttrId::ClipPath => self.clip_path,
            AttrId::StrokeWidth => self.stroke_width,
        }
    }

    /// `self` with the value of `id` replaced by `v` and every other attribute kept.
    pub open spec fn with(self, id: AttrId, v: Option<AttrValue>) -> Attrs {
        match id {
            AttrId::X => Attrs { x: v, ..self },
            AttrId::Y => Attrs { y: v, ..self },
            AttrId::Width => Attrs { width: v, ..self },
            AttrId::Height => Attrs { height: v, ..self },
            AttrId::Rx => Attrs { rx: v, ..self },
            AttrId::Ry => Attrs { ry: v, ..self },
            AttrId::Cx => Attrs { cx: v, ..self },
            AttrId::Cy => Attrs { cy: v, ..self },
            AttrId::R => Attrs { r: v, ..self },
            AttrId::X1 => Attrs { x1: v, ..self },
            AttrId::Y1 => Attrs { y1: v, ..self },
            AttrId::X2 => Attrs { x2: v, ..self },
            AttrId::Y2 => Attrs { y2: v, ..self },
            AttrId::Transform => Attrs { transform: v, ..self },
            AttrId::Fill => Attrs { fill: v, ..self },
            AttrId::Stroke => Attrs { stroke: v, ..self },
            AttrId::Filter => Attrs { filter: v, ..self },
            AttrId::Mask => Attrs { mask: v, ..self },
            AttrId::ClipPath => Attrs { clip_path: v, ..self },
            AttrId::StrokeWidth => Attrs { stroke_width: v, ..self },
        }
    }

    /// The value of `id`, if the set holds one.
    pub fn value(&self, id: AttrId) -> (r: Option<AttrValue>)
        ensures
            r == self.get(id),
    {
        match id {
            AttrId::X => self.x,
            AttrId::Y => self.y,
            AttrId::Width => self.width,
            AttrId::Height => self.height,
            AttrId::Rx => self.rx,
            AttrId::Ry => self.ry,
            AttrId::Cx => self.cx,
            AttrId::Cy => self.cy,
            AttrId::R => self.r,
            AttrId::X1 => self.x1,
            AttrId::Y1 => self.y1,
            AttrId::X2 => self.x2,
            AttrId::Y2 => self.y2,
            AttrId::Transform => self.transform,
            AttrId::Fill => self.fill,
            AttrId::Stroke => self.stroke,
            AttrId::Filter => self.filter,
            AttrId::Mask => self.mask,
            AttrId::ClipPath => self.clip_path,
            AttrId::StrokeWidth => self.stroke_width,
        }
    }

    /// Sets (`Some`) or removes (`None`) the value of `id`.
    pub fn set(&mut self, id: AttrId, v: Option<AttrValue>)
        ensures
            *final(self) == old(self).with(id, v),
    {
        match id {
            AttrId::X => self.x = v,
            AttrId::Y => self.y = v,
            AttrId::Width => self.width = v,
            AttrId::Height => self.height = v,
            AttrId::Rx => self.rx = v,
            AttrId::Ry => self.ry = v,
            AttrId::Cx => self.cx = v,
            AttrId::Cy => self.cy = v,
            AttrId::R => self.r = v,
            AttrId::X1 => self.x1 = v,
            AttrId::Y1 => self.y1 = v,
            AttrId::X2 => self.x2 = v,
            AttrId::Y2 => self.y2 = v,
            AttrId::Transform => self.transform = v,
            AttrId::Fill => self.fill = v,
            AttrId::Stroke => self.stroke = v,
            AttrId::Filter => self.filter = v,
            AttrId::Mask => self.mask = v,
            AttrId::ClipPath => self.clip_path = v,
            AttrId::StrokeWidth => self.stroke_width = v,
        }
    }
}

} // verus!
