//! The two passes together: hoisting, then baking.
use vstd::prelude::*;

use crate::bake::{bake_all, bake_result, bake_shapes};
use svgdom::types::Length;

use crate::document::{Document, lemma_under_hoisted_is_shape};
use crate::validity::{attrs_ok, coords_ok, is_shape, shape_ok, transform_ok};
use crate::hoist::{hoist_groups, hoist_result};

verus! {

/// The element fails one of the validity checks: a transform with skew or
/// non-proportional scale, a paint or filter by reference, a mask or clip
/// path, or (for a shape) a coordinate with a unit.
pub open spec fn ineligible(k: crate::model::Kind, a: crate::model::Attrs) -> bool {
    !transform_ok(a) || !attrs_ok(a) || (is_shape(k) && !coords_ok(k, a))
}

/// The group `g` has a child that fails the validity checks.
pub open spec fn blocked(d: &Document, g: int) -> bool {
    d.kind(g) == crate::model::Kind::Group && !d.children_ok_upto(g, d.len())
}

/// The hoisting pass followed by the baking pass, related element by element.
pub open spec fn passes(d0: &Document, d1: &Document, d2: &Document, z: Length) -> bool {
    &&& d0.wf() && d1.wf() && d2.wf()
    &&& d1.same_shape(d0) && d2.same_shape(d1)
    &&& forall|i: int| 0 <= i < d0.len() ==> hoist_result(d0, i, #[trigger] d1.attr(i))
    &&& forall|i: int| 0 <= i < d0.len() ==> bake_result(d1, i, #[trigger] d2.attr(i), z)
}

/// What baking did not bake it left alone; what it baked lost its transform.
proof fn lemma_bake_frame(d1: &Document, d2: &Document, i: int, z: Length)
    requires
        0 <= i < d1.len(),
        bake_result(d1, i, d2.attr(i), z),
    ensures
        d1.bakeable_at(i) ==> d2.attr(i).transform is None && shape_ok(d1.kind(i), d1.attr(i)),
        !d1.bakeable_at(i) ==> d2.attr(i) == d1.attr(i),
{
}

/// After both passes neither has anything left to do.
pub proof fn lemma_passes_settle(d0: &Document, d1: &Document, d2: &Document, z: Length)
    requires
        passes(d0, d1, d2, z),
    ensures
        d2.settled(),
{
    assert forall|g: int| 0 <= g < d2.len() implies !d2.hoistable(g) && !d2.bakeable_at(g) by {
        assert(bake_result(d1, g, d2.attr(g), z));
        lemma_bake_frame(d1, d2, g, z);
        if d2.hoistable(g) {
            assert forall|c: int|
                #![trigger d1.parents@[c]]
                0 <= c < d1.len() && d1.is_child(c, g) implies shape_ok(d1.kind(c), d1.attr(c)) by {
                assert(d2.parents@[c] == d1.parents@[c]);
                assert(bake_result(d1, c, d2.attr(c), z));
                lemma_bake_frame(d1, d2, c, z);
            }
            assert(d1.hoistable(g));
            assert(hoist_result(d0, g, d1.attr(g)));
            if d0.under_hoisted(g) {
                lemma_under_hoisted_is_shape(d0, g);
            }
            assert forall|c: int|
                #![trigger d0.parents@[c]]
                0 <= c < d0.len() && d0.is_child(c, g) implies shape_ok(d0.kind(c), d0.attr(c)) by {
                assert(d1.parents@[c] == d0.parents@[c]);
                assert(shape_ok(d1.kind(c), d1.attr(c)));
                assert(hoist_result(d0, c, d1.attr(c)));
            }
            assert(d0.hoistable(g));
        }
    }
}

/// Where neither pass has anything to do, both change nothing.
pub proof fn lemma_passes_settled_identity(d0: &Document, d1: &Document, d2: &Document, z: Length)
    requires
        passes(d0, d1, d2, z),
        d0.settled(),
    ensures
        d2.attrs@ == d0.attrs@,
{
    assert forall|i: int| 0 <= i < d0.len() implies d2.attrs@[i] == d0.attrs@[i] by {
        assert(hoist_result(d0, i, d1.attr(i)));
        assert(!d0.hoistable(i));
        if d0.under_hoisted(i) {
            assert(!d0.hoistable(d0.parents@[i]->0 as int));
        }
        assert(bake_result(d1, i, d2.attr(i), z));
    }
    assert(d2.attrs@ =~= d0.attrs@);
}

/// An element that fails the validity checks comes out of both passes unchanged.
pub proof fn lemma_passes_ineligible(d0: &Document, d1: &Document, d2: &Document, z: Length, i: int)
    requires
        passes(d0, d1, d2, z),
        0 <= i < d0.len(),
        ineligible(d0.kind(i), d0.attr(i)),
    ensures
        d2.attr(i) == d0.attr(i),
{
    assert(hoist_result(d0, i, d1.attr(i)));
    if d0.under_hoisted(i) {
        lemma_under_hoisted_is_shape(d0, i);
    }
    assert(bake_result(d1, i, d2.attr(i), z));
}

/// A group with one ineligible child keeps its transform, and a child of it
/// with no work of its own (no transform to bake, no children to hoist onto)
/// is left unchanged.
pub proof fn lemma_passes_atomic(d0: &Document, d1: &Document, d2: &Document, z: Length, g: int, j: int)
    requires
        passes(d0, d1, d2, z),
        0 <= g < d0.len(),
        0 <= j < d0.len(),
        blocked(d0, g),
        d0.is_child(j, g),
        !d0.bakeable_at(j),
        !d0.hoistable(j),
    ensures
        d2.attr(g) == d0.attr(g),
        d2.attr(j) == d0.attr(j),
{
    assert(hoist_result(d0, g, d1.attr(g)));
    if d0.under_hoisted(g) {
        lemma_under_hoisted_is_shape(d0, g);
    }
    assert(bake_result(d1, g, d2.attr(g), z));
    assert(hoist_result(d0, j, d1.attr(j)));
    assert(bake_result(d1, j, d2.attr(j), z));
}

/// Folds transforms into shapes: first every eligible group hands its
/// transform down to its children, then every eligible shape with a transform
/// takes it into its coordinates. Afterwards neither step has anything left to
/// do, so running it again changes nothing. An element that fails the validity
/// checks is never changed, and a group with one ineligible child keeps its
/// transform.
pub fn apply_transform_to_shapes(doc: &mut Document)
    requires
        old(doc).wf(),
    ensures
        final(doc).wf(),
        final(doc).same_shape(old(doc)),
        exists|mid: Document, z: Length| passes(old(doc), &mid, final(doc), z),
        final(doc).settled(),
        old(doc).settled() ==> final(doc).attrs@ == old(doc).attrs@,
        forall|i: int|
            0 <= i < old(doc).len() && ineligible(old(doc).kind(i), old(doc).attr(i))
                ==> #[trigger] final(doc).attr(i) == old(doc).attr(i),
        forall|g: int, j: int|
            0 <= g < old(doc).len() && 0 <= j < old(doc).len() && blocked(old(doc), g)
                && #[trigger] old(doc).is_child(j, g) && !old(doc).bakeable_at(j)
                && !old(doc).hoistable(j) ==> final(doc).attr(g) == old(doc).attr(g) && final(doc).attr(j) == old(doc).attr(j),
{
    let ghost d0 = *doc;
    hoist_groups(doc);
    let ghost d1 = *doc;
    bake_shapes(doc);
    proof {
        let d2 = *doc;
        let z = choose|z: Length| bake_all(&d1, &d2, z);
        assert(passes(&d0, &d1, &d2, z));
        assert(exists|mid: Document, z: Length| passes(&d0, &mid, &d2, z));
        lemma_passes_settle(&d0, &d1, &d2, z);
        if d0.settled() {
            lemma_passes_settled_identity(&d0, &d1, &d2, z);
        }
        assert forall|i: int|
            0 <= i < d0.len() && ineligible(d0.kind(i), d0.attr(i)) implies #[trigger] d2.attr(i)
            == d0.attr(i) by {
            lemma_passes_ineligible(&d0, &d1, &d2, z, i);
        }
        assert forall|g: int, j: int|
            0 <= g < d0.len() && 0 <= j < d0.len() && blocked(&d0, g) && #[trigger] d0.is_child(j, g)
                && !d0.bakeable_at(j) && !d0.hoistable(j) implies d2.attr(g) == d0.attr(g) && d2.attr(j) == d0.attr(j) by {
            lemma_passes_atomic(&d0, &d1, &d2, z, g, j);
        }
    }
}

} // verus!
