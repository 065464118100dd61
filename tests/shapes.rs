use shape_transforms::apply_transform_to_shapes;
use shape_transforms::document::Document;
use shape_transforms::model::{AttrValue, Attrs, Kind, Len, Unit, Xform};
use svgdom::types::{Length, LengthUnit, Transform};

fn len(v: f64) -> Option<AttrValue> {
    Some(AttrValue::Length(Len { value: Length::new(v, LengthUnit::None), unit: Unit::Unitless }))
}

fn len_in(v: f64, unit: Unit, svg_unit: LengthUnit) -> Option<AttrValue> {
    Some(AttrValue::Length(Len { value: Length::new(v, svg_unit), unit }))
}

fn ts(a: f64, b: f64, c: f64, d: f64, e: f64, f: f64) -> Option<AttrValue> {
    Some(AttrValue::Transform(Xform::new(Transform::new(a, b, c, d, e, f))))
}

/// translate(10 20) scale(2)
fn translate_scale() -> Option<AttrValue> {
    ts(2.0, 0.0, 0.0, 2.0, 10.0, 20.0)
}

fn num(v: Option<AttrValue>) -> f64 {
    match v {
        Some(AttrValue::Length(l)) => {
            assert!(l.unit == Unit::Unitless);
            l.value.num
        }
        _ => panic!("not a length"),
    }
}

/// An `<svg>` root followed by `shapes`, each a child of the root.
fn doc_of(shapes: Vec<(Kind, Attrs)>) -> Document {
    let mut kinds = vec![Kind::Other];
    let mut attrs = vec![Attrs::empty()];
    let mut parents = vec![None];
    for (k, a) in shapes {
        kinds.push(k);
        attrs.push(a);
        parents.push(Some(0));
    }
    Document { kinds, attrs, parents }
}

fn rect(x: f64, y: f64, w: f64, h: f64) -> Attrs {
    let mut a = Attrs::empty();
    a.x = len(x);
    a.y = len(y);
    a.width = len(w);
    a.height = len(h);
    a
}

fn same(a: &Attrs, b: &Attrs) -> bool {
    format!("{:?}", a) == format!("{:?}", b)
}

#[test]
fn apply_1() {
    let mut a = rect(10.0, 10.0, 10.0, 10.0);
    a.transform = ts(1.0, 0.0, 0.0, 1.0, 10.0, 20.0);
    let mut doc = doc_of(vec![(Kind::Rect, a)]);
    apply_transform_to_shapes(&mut doc);
    let r = doc.attrs[1];
    assert!(r.transform.is_none());
    assert_eq!(num(r.x), 20.0);
    assert_eq!(num(r.y), 30.0);
    assert_eq!(num(r.width), 10.0);
    assert_eq!(num(r.height), 10.0);
    assert!(r.stroke_width.is_none());
}

#[test]
fn apply_2() {
    let mut a = rect(10.0, 10.0, 10.0, 10.0);
    a.rx = len(2.0);
    a.ry = len(2.0);
    a.transform = translate_scale();
    let mut doc = doc_of(vec![(Kind::Rect, a)]);
    apply_transform_to_shapes(&mut doc);
    let r = doc.attrs[1];
    assert!(r.transform.is_none());
    assert_eq!(num(r.x), 30.0);
    assert_eq!(num(r.y), 40.0);
    assert_eq!(num(r.width), 20.0);
    assert_eq!(num(r.height), 20.0);
    assert_eq!(num(r.rx), 4.0);
    assert_eq!(num(r.ry), 4.0);
    assert_eq!(num(r.stroke_width), 2.0);
}

#[test]
fn apply_3() {
    let mut a = Attrs::empty();
    a.width = len(10.0);
    a.height = len(10.0);
    a.transform = translate_scale();
    let mut doc = doc_of(vec![(Kind::Rect, a)]);
    apply_transform_to_shapes(&mut doc);
    let r = doc.attrs[1];
    assert_eq!(num(r.x), 10.0);
    assert_eq!(num(r.y), 20.0);
    assert_eq!(num(r.width), 20.0);
    assert_eq!(num(r.height), 20.0);
    assert_eq!(num(r.stroke_width), 2.0);
}

#[test]
fn apply_4() {
    let mut a = Attrs::empty();
    a.width = len(10.0);
    a.height = len(10.0);
    a.transform = ts(2.0, 0.0, 0.0, 2.0, 0.0, 0.0);
    let mut doc = doc_of(vec![(Kind::Rect, a)]);
    doc.attrs[0].stroke_width = len(2.0);
    apply_transform_to_shapes(&mut doc);
    let r = doc.attrs[1];
    assert_eq!(num(r.x), 0.0);
    assert_eq!(num(r.y), 0.0);
    assert_eq!(num(r.width), 20.0);
    assert_eq!(num(r.height), 20.0);
    assert_eq!(num(r.stroke_width), 4.0);
    assert_eq!(num(doc.attrs[0].stroke_width), 2.0);
}

#[test]
fn apply_circle_1() {
    let mut a = Attrs::empty();
    a.cx = len(10.0);
    a.cy = len(10.0);
    a.r = len(15.0);
    a.transform = translate_scale();
    let mut doc = doc_of(vec![(Kind::Circle, a)]);
    apply_transform_to_shapes(&mut doc);
    let r = doc.attrs[1];
    assert!(r.transform.is_none());
    assert_eq!(num(r.cx), 30.0);
    assert_eq!(num(r.cy), 40.0);
    assert_eq!(num(r.r), 30.0);
    assert_eq!(num(r.stroke_width), 2.0);
}

#[test]
fn apply_ellipse_1() {
    let mut a = Attrs::empty();
    a.cx = len(10.0);
    a.cy = len(10.0);
    a.rx = len(15.0);
    a.ry = len(15.0);
    a.transform = translate_scale();
    let mut doc = doc_of(vec![(Kind::Ellipse, a)]);
    apply_transform_to_shapes(&mut doc);
    let r = doc.attrs[1];
    assert!(r.transform.is_none());
    assert_eq!(num(r.cx), 30.0);
    assert_eq!(num(r.cy), 40.0);
    assert_eq!(num(r.rx), 30.0);
    assert_eq!(num(r.ry), 30.0);
    assert_eq!(num(r.stroke_width), 2.0);
}

#[test]
fn apply_line_1() {
    let mut a = Attrs::empty();
    a.x1 = len(10.0);
    a.x2 = len(10.0);
    a.y1 = len(15.0);
    a.y2 = len(15.0);
    a.transform = translate_scale();
    let mut doc = doc_of(vec![(Kind::Line, a)]);
    apply_transform_to_shapes(&mut doc);
    let r = doc.attrs[1];
    assert!(r.transform.is_none());
    assert_eq!(num(r.x1), 30.0);
    assert_eq!(num(r.x2), 30.0);
    assert_eq!(num(r.y1), 50.0);
    assert_eq!(num(r.y2), 50.0);
    assert_eq!(num(r.stroke_width), 2.0);
}

#[test]
fn apply_g_1() {
    let mut g = Attrs::empty();
    g.transform = translate_scale();
    let mut first = rect(10.0, 10.0, 10.0, 10.0);
    first.transform = ts(2.0, 0.0, 0.0, 2.0, 0.0, 0.0);
    let mut doc = Document {
        kinds: vec![Kind::Other, Kind::Group, Kind::Rect, Kind::Rect, Kind::Rect],
        attrs: vec![
            Attrs::empty(),
            g,
            first,
            rect(10.0, 10.0, 10.0, 10.0),
            rect(10.0, 10.0, 10.0, 10.0),
        ],
        parents: vec![None, Some(0), Some(1), Some(1), Some(1)],
    };
    apply_transform_to_shapes(&mut doc);
    assert!(doc.attrs[1].transform.is_none());
    let r = doc.attrs[2];
    assert!(r.transform.is_none());
    assert_eq!(num(r.x), 50.0);
    assert_eq!(num(r.y), 60.0);
    assert_eq!(num(r.width), 40.0);
    assert_eq!(num(r.height), 40.0);
    assert_eq!(num(r.stroke_width), 4.0);
    for i in 3..5 {
        let r = doc.attrs[i];
        assert!(r.transform.is_none());
        assert_eq!(num(r.x), 30.0);
        assert_eq!(num(r.y), 40.0);
        assert_eq!(num(r.width), 20.0);
        assert_eq!(num(r.height), 20.0);
        assert_eq!(num(r.stroke_width), 2.0);
    }
}

#[test]
fn keep_1() {
    let mut a = rect(10.0, 10.0, 10.0, 10.0);
    a.x = len_in(10.0, Unit::Physical, LengthUnit::In);
    a.transform = ts(2.0, 0.0, 0.0, 2.0, 0.0, 0.0);
    let mut doc = doc_of(vec![(Kind::Rect, a)]);
    apply_transform_to_shapes(&mut doc);
    assert!(same(&doc.attrs[1], &a));
}

#[test]
fn keep_2() {
    let mut g1 = Attrs::empty();
    g1.transform = ts(2.0, 0.0, 0.0, 3.0, 0.0, 0.0);
    let mut g2 = Attrs::empty();
    g2.transform = ts(2.0, 0.0, 0.0, 2.0, 0.0, 0.0);
    g2.mask = Some(AttrValue::FuncLink);
    let r = rect(10.0, 10.0, 10.0, 10.0);
    let mut doc = Document {
        kinds: vec![Kind::Other, Kind::Group, Kind::Rect, Kind::Other, Kind::Group, Kind::Rect],
        attrs: vec![Attrs::empty(), g1, r, Attrs::empty(), g2, r],
        parents: vec![None, Some(0), Some(1), Some(0), Some(0), Some(4)],
    };
    let before = doc.attrs.clone();
    apply_transform_to_shapes(&mut doc);
    for i in 0..6 {
        assert!(same(&doc.attrs[i], &before[i]));
    }
}

#[test]
fn hoist_beside_masked_group() {
    let mut g1 = Attrs::empty();
    g1.transform = ts(2.0, 0.0, 0.0, 2.0, 0.0, 0.0);
    let mut g2 = g1;
    g2.mask = Some(AttrValue::FuncLink);
    let r = rect(10.0, 10.0, 10.0, 10.0);
    let mut doc = Document {
        kinds: vec![Kind::Other, Kind::Group, Kind::Rect, Kind::Group, Kind::Rect],
        attrs: vec![Attrs::empty(), g1, r, g2, r],
        parents: vec![None, Some(0), Some(1), Some(0), Some(3)],
    };
    apply_transform_to_shapes(&mut doc);
    assert!(doc.attrs[1].transform.is_none());
    assert_eq!(num(doc.attrs[2].x), 20.0);
    assert_eq!(num(doc.attrs[2].width), 20.0);
    assert_eq!(num(doc.attrs[2].stroke_width), 2.0);
    assert!(same(&doc.attrs[3], &g2));
    assert!(same(&doc.attrs[4], &r));
}

#[test]
fn skewed_shape_is_kept() {
    let mut a = rect(10.0, 10.0, 10.0, 10.0);
    a.transform = ts(1.0, 0.0, 0.5, 1.0, 0.0, 0.0);
    let mut doc = doc_of(vec![(Kind::Rect, a)]);
    apply_transform_to_shapes(&mut doc);
    assert!(same(&doc.attrs[1], &a));
}

#[test]
fn linked_fill_is_kept() {
    let mut a = rect(10.0, 10.0, 10.0, 10.0);
    a.transform = translate_scale();
    a.fill = Some(AttrValue::FuncLink);
    let mut doc = doc_of(vec![(Kind::Rect, a)]);
    apply_transform_to_shapes(&mut doc);
    assert!(same(&doc.attrs[1], &a));
}

#[test]
fn percent_radius_is_kept() {
    let mut a = Attrs::empty();
    a.r = len_in(50.0, Unit::Percent, LengthUnit::Percent);
    a.transform = translate_scale();
    let mut doc = doc_of(vec![(Kind::Circle, a)]);
    apply_transform_to_shapes(&mut doc);
    assert!(same(&doc.attrs[1], &a));
}

#[test]
fn ineligible_child_blocks_group() {
    let mut g = Attrs::empty();
    g.transform = translate_scale();
    let mut bad = rect(1.0, 1.0, 1.0, 1.0);
    bad.clip_path = Some(AttrValue::FuncLink);
    let good = rect(10.0, 10.0, 10.0, 10.0);
    let mut doc = Document {
        kinds: vec![Kind::Other, Kind::Group, Kind::Rect, Kind::Rect],
        attrs: vec![Attrs::empty(), g, good, bad],
        parents: vec![None, Some(0), Some(1), Some(1)],
    };
    apply_transform_to_shapes(&mut doc);
    assert!(same(&doc.attrs[1], &g));
    assert!(same(&doc.attrs[2], &good));
    assert!(same(&doc.attrs[3], &bad));
}

#[test]
fn second_run_changes_nothing() {
    let mut a = rect(10.0, 10.0, 10.0, 10.0);
    a.transform = translate_scale();
    let mut skewed = rect(1.0, 2.0, 3.0, 4.0);
    skewed.transform = ts(1.0, 0.0, 0.5, 1.0, 0.0, 0.0);
    let mut doc = doc_of(vec![(Kind::Rect, a), (Kind::Rect, skewed)]);
    apply_transform_to_shapes(&mut doc);
    let once = doc.attrs.clone();
    apply_transform_to_shapes(&mut doc);
    for i in 0..3 {
        assert!(same(&doc.attrs[i], &once[i]));
    }
    assert!(doc.attrs[1].transform.is_none());
    assert!(doc.attrs[2].transform.is_some());
}

#[test]
fn translation_keeps_sizes() {
    let mut a = Attrs::empty();
    a.cx = len(1.0);
    a.cy = len(2.0);
    a.r = len(7.0);
    a.transform = ts(1.0, 0.0, 0.0, 1.0, 5.0, -5.0);
    let mut doc = doc_of(vec![(Kind::Circle, a)]);
    apply_transform_to_shapes(&mut doc);
    let r = doc.attrs[1];
    assert!(r.transform.is_none());
    assert_eq!(num(r.cx), 6.0);
    assert_eq!(num(r.cy), -3.0);
    assert_eq!(num(r.r), 7.0);
    assert!(r.stroke_width.is_none());
}

#[test]
fn quarter_turn_counts_as_skew() {
    // svgdom's decomposition reads a 90 degree rotation as a skew part.
    let mut a = rect(10.0, 5.0, 10.0, 10.0);
    a.transform = ts(0.0, 1.0, -1.0, 0.0, 0.0, 0.0);
    let mut doc = doc_of(vec![(Kind::Rect, a)]);
    apply_transform_to_shapes(&mut doc);
    assert!(same(&doc.attrs[1], &a));
}

#[test]
fn non_length_position_is_kept() {
    let mut a = rect(10.0, 10.0, 10.0, 10.0);
    a.x = Some(AttrValue::Other);
    a.transform = translate_scale();
    let mut doc = doc_of(vec![(Kind::Rect, a)]);
    apply_transform_to_shapes(&mut doc);
    assert!(same(&doc.attrs[1], &a));
}
