//! A document as a flat list of elements in document order, and the
//! predicates that decide which groups are hoisted and which shapes are baked.
use vstd::prelude::*;

use crate::validity::{attrs_ok, bakeable, shape_ok, transform_ok};
use crate::model::{AttrValue, Attrs, Kind};

verus! {

/// Elements in document order. Element `i` has kind `kinds[i]`, attributes
/// `attrs[i]` and parent `parents[i]`; a parent always precedes its children.
pub struct Document {
    pub kinds: Vec<Kind>,
    pub attrs: Vec<Attrs>,
    pub parents: Vec<Option<usize>>,
}

impl Document {
    pub open spec fn len(&self) -> int {
        self.kinds@.len() as int
    }

    pub open spec fn wf(&self) -> bool {
        &&& self.attrs@.len() == self.kinds@.len()
        &&& self.parents@.len() == self.kinds@.len()
        &&& forall|i: int|
            #![trigger self.parents@[i]]
            0 <= i < self.len() && self.parents@[i] is Some ==> (self.parents@[i]->0 as int) < i
    }

    pub open spec fn kind(&self, i: int) -> Kind {
        self.kinds@[i]
    }

    pub open spec fn attr(&self, i: int) -> Attrs {
        self.attrs@[i]
    }

    pub open spec fn is_child(&self, c: int, g: int) -> bool {
        self.parents@[c] == Some(g as usize)
    }

    /// Every child of `g` among the first `m` elements passes the validity checks.
    pub open spec fn children_ok_upto(&self, g: int, m: int) -> bool {
        forall|c: int|
            #![trigger self.parents@[c]]
            0 <= c < m && self.is_child(c, g) ==> shape_ok(self.kind(c), self.attr(c))
    }

    /// A group whose transform can be pushed down onto its children: it carries
    /// a transform, passes the transform and attribute checks, and every child
    /// is a shape that passes all the validity checks.
    pub open spec fn hoistable(&self, g: int) -> bool {
        &&& self.kind(g) == Kind::Group
        &&& self.attr(g).transform is Some
        &&& transform_ok(self.attr(g))
        &&& attrs_ok(self.attr(g))
        &&& self.children_ok_upto(g, self.len())
    }

    /// Element `i` is the child of a hoistable group.
    pub open spec fn under_hoisted(&self, i: int) -> bool {
        &&& self.parents@[i] is Some
        &&& self.hoistable(self.parents@[i]->0 as int)
    }

    pub open spec fn bakeable_at(&self, i: int) -> bool {
        bakeable(self.kind(i), self.attr(i))
    }

    /// Neither pass has anything to do.
    pub open spec fn settled(&self) -> bool {
        forall|i: int| 0 <= i < self.len() ==> !self.hoistable(i) && !self.bakeable_at(i)
    }

    /// The same tree: kinds and parents kept.
    pub open spec fn same_shape(&self, o: &Document) -> bool {
        &&& self.kinds@ == o.kinds@
        &&& self.parents@ == o.parents@
        &&& self.attrs@.len() == o.attrs@.len()
    }
}

/// Extending the prefix of children considered by one element.
pub proof fn lemma_children_ok_step(d: &Document, g: int, m: int)
    requires
        0 <= m < d.len(),
        d.wf(),
    ensures
        d.children_ok_upto(g, m + 1) == (d.children_ok_upto(g, m) && (d.is_child(m, g)
            ==> shape_ok(d.kind(m), d.attr(m)))),
{
    if d.children_ok_upto(g, m) && (d.is_child(m, g) ==> shape_ok(d.kind(m), d.attr(m))) {
        assert forall|c: int|
            #![trigger d.parents@[c]]
            0 <= c < m + 1 && d.is_child(c, g) implies shape_ok(d.kind(c), d.attr(c)) by {
            if c < m {
                assert(d.parents@[c] == d.parents@[c]);
            }
        }
    }
    if d.children_ok_upto(g, m + 1) {
        assert(d.parents@[m] == d.parents@[m]);
    }
}

/// A child of a hoistable group passes the validity checks, so it is no group itself.
pub proof fn lemma_under_hoisted_is_shape(d: &Document, i: int)
    requires
        d.wf(),
        0 <= i < d.len(),
        d.under_hoisted(i),
    ensures
        shape_ok(d.kind(i), d.attr(i)),
        !d.hoistable(i),
{
    assert(d.parents@[i] == d.parents@[i]);
}

} // verus!
