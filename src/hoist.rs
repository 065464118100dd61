//! Group hoisting: pushing an eligible group's transform down onto its children.
use vstd::prelude::*;

use crate::geometry::appended;
use crate::document::{Document, lemma_children_ok_step, lemma_under_hoisted_is_shape};
use crate::validity::{is_valid_attrs, is_valid_shape, is_valid_transform, shape_ok};
use crate::model::{AttrId, AttrValue, Attrs, Kind, Xform};

verus! {

/// The transform `r` that a child with transform `c` takes from a group with
/// transform `g`: the group's own where the child had none, else the two
/// composed, the child's applied first.
pub open spec fn hoisted_transform(g: Option<AttrValue>, c: Option<AttrValue>, r: Option<AttrValue>) -> bool {
    match (g, c) {
        (Some(AttrValue::Transform(gt)), Some(AttrValue::Transform(ct))) => {
            &&& r matches Some(AttrValue::Transform(x))
            &&& x.ts == appended(gt.ts, ct.ts)
            &&& x.consistent()
        },
        (Some(AttrValue::Transform(_)), None) => r == g,
        _ => false,
    }
}

/// What hoisting leaves in element `i` of `d`, given the new attributes `a`.
/// A hoisted group loses its transform; a child of one takes the hoisted
/// transform and keeps everything else. Every other element is left as it was.
pub open spec fn hoist_result(d: &Document, i: int, a: Attrs) -> bool {
    if d.hoistable(i) {
        a == d.attr(i).with(AttrId::Transform, None)
    } else if d.under_hoisted(i) {
        &&& a == d.attr(i).with(AttrId::Transform, a.transform)
        &&& hoisted_transform(d.attr(d.parents@[i]->0 as int).transform, d.attr(i).transform, a.transform)
    } else {
        a == d.attr(i)
    }
}

/// For each element, whether it is a hoistable group. Computed on the
/// document as it stands, before anything is changed.
fn hoistable_groups(doc: &Document) -> (r: Vec<bool>)
    requires
        doc.wf(),
    ensures
        r@.len() == doc.len(),
        forall|g: int| 0 <= g < doc.len() ==> r@[g] == doc.hoistable(g),
{
    let n = doc.kinds.len();
    // `clean[g]`: every child of `g` seen so far passes the validity checks.
    let mut clean: Vec<bool> = Vec::new();
    let mut g: usize = 0;
    while g < n
        invariant
            g <= n,
            n == doc.len(),
            clean@.len() == g,
            forall|j: int| 0 <= j < g ==> clean@[j],
        decreases n - g,
    {
        clean.push(true);
        g = g + 1;
    }
    let mut c: usize = 0;
    while c < n
        invariant
            doc.wf(),
            c <= n,
            n == doc.len(),
            clean@.len() == n,
            forall|j: int| 0 <= j < n ==> clean@[j] == doc.children_ok_upto(j, c as int),
        decreases n - c,
    {
        let ok = is_valid_shape(doc.kinds[c], &doc.attrs[c]);
        proof {
            assert forall|j: int| 0 <= j < n implies doc.children_ok_upto(j, c as int + 1) == (
            doc.children_ok_upto(j, c as int) && (doc.is_child(c as int, j) ==> ok)) by {
                lemma_children_ok_step(doc, j, c as int);
            }
        }
        if let Some(p) = doc.parents[c] {
            if !ok {
                clean.set(p, false);
            }
        }
        c = c + 1;
    }
    let mut r: Vec<bool> = Vec::new();
    let mut g: usize = 0;
    while g < n
        invariant
            doc.wf(),
            g <= n,
            n == doc.len(),
            clean@.len() == n,
            forall|j: int| 0 <= j < n ==> clean@[j] == doc.children_ok_upto(j, n as int),
            r@.len() == g,
            forall|j: int| 0 <= j < g ==> r@[j] == doc.hoistable(j),
        decreases n - g,
    {
        let a = &doc.attrs[g];
        let h = doc.kinds[g] == Kind::Group && a.transform.is_some() && is_valid_transform(a)
            && is_valid_attrs(a) && clean[g];
        r.push(h);
        g = g + 1;
    }
    r
}

/// Pushes the transform of every hoistable group down onto its children and
/// removes it from the group. A group with one ineligible child, or that fails
/// the checks itself, is left as it is, and so are its children.
pub fn hoist_groups(doc: &mut Document)
    requires
        old(doc).wf(),
    ensures
        final(doc).wf(),
        final(doc).same_shape(old(doc)),
        forall|i: int| 0 <= i < old(doc).len() ==> hoist_result(old(doc), i, #[trigger] final(doc).attr(i)),
{
    let ghost d0 = *doc;
    let hoist = hoistable_groups(doc);
    let n = doc.kinds.len();
    let mut i: usize = 0;
    // First every child of a hoisted group takes the group's transform.
    while i < n
        invariant
            d0.wf(),
            doc.wf(),
            doc.same_shape(&d0),
            i <= n,
            n == d0.len(),
            hoist@.len() == n,
            forall|g: int| 0 <= g < n ==> hoist@[g] == d0.hoistable(g),
            forall|j: int|
                0 <= j < n && !(j < i && d0.under_hoisted(j)) ==> #[trigger] doc.attr(j) == d0.attr(j),
            forall|j: int|
                0 <= j < i && d0.under_hoisted(j) ==> hoist_result(&d0, j, #[trigger] doc.attr(j)),
        decreases n - i,
    {
        let ghost before = *doc;
        if let Some(p) = doc.parents[i] {
            if hoist[p] {
                proof {
                    assert(d0.parents@[i as int] == doc.parents@[i as int]);
                    assert(d0.under_hoisted(i as int));
                    lemma_under_hoisted_is_shape(&d0, i as int);
                    assert(!d0.under_hoisted(p as int)) by {
                        if d0.under_hoisted(p as int) {
                            lemma_under_hoisted_is_shape(&d0, p as int);
                        }
                    }
                    assert(doc.attr(p as int) == d0.attr(p as int));
                }
                let group = doc.attrs[p];
                let mut a = doc.attrs[i];
                if let Some(AttrValue::Transform(gt)) = group.transform {
                    let t = match a.transform {
                        Some(AttrValue::Transform(ct)) => {
                            let mut ts = gt.ts;
                            ts.append(&ct.ts);
                            Xform::new(ts)
                        },
                        _ => gt,
                    };
                    a.set(AttrId::Transform, Some(AttrValue::Transform(t)));
                    doc.attrs.set(i, a);
                }
            }
        }
        proof {
            assert forall|j: int|
                0 <= j < n && !(j < i + 1 && d0.under_hoisted(j)) implies #[trigger] doc.attr(j)
                == d0.attr(j) by {
                assert(before.attr(j) == d0.attr(j));
            }
        }
        i = i + 1;
    }
    // Then the hoisted groups drop theirs.
    let mut i: usize = 0;
    while i < n
        invariant
            d0.wf(),
            doc.wf(),
            doc.same_shape(&d0),
            i <= n,
            n == d0.len(),
            hoist@.len() == n,
            forall|g: int| 0 <= g < n ==> hoist@[g] == d0.hoistable(g),
            forall|j: int|
                0 <= j < n && !(j < i && d0.hoistable(j)) && !d0.under_hoisted(j)
                    ==> #[trigger] doc.attr(j) == d0.attr(j),
            forall|j: int|
                0 <= j < n && (d0.under_hoisted(j) || (j < i && d0.hoistable(j))) ==> hoist_result(
                    &d0,
                    j,
                    #[trigger] doc.attr(j),
                ),
        decreases n - i,
    {
        let ghost before = *doc;
        if hoist[i] {
            proof {
                if d0.under_hoisted(i as int) {
                    lemma_under_hoisted_is_shape(&d0, i as int);
                }
            }
            let mut a = doc.attrs[i];
            a.set(AttrId::Transform, None);
            doc.attrs.set(i, a);
        }
        proof {
            assert forall|j: int|
                0 <= j < n && !(j < i + 1 && d0.hoistable(j)) && !d0.under_hoisted(j)
                    implies #[trigger] doc.attr(j) == d0.attr(j) by {
                assert(before.attr(j) == d0.attr(j));
            }
        }
        i = i + 1;
    }
}

} // verus!
