//! How the outline of a layer is put together, and which borders of a stroke are
//! outlined. The curves themselves are the host's.

use vstd::prelude::*;

use crate::document::{BooleanOp, CanvasNode, Doc, NodeData, Transform};
use crate::ids::NodeId;
use crate::layer_context_ops::paints;
use crate::layer_errors::LayerError;
use crate::paint::{Quad, Size, Stroke, StrokeAlign};
use crate::scalar::Scalar;

verus! {

// ---------------------------------------------------------------------------
// Layers
// ---------------------------------------------------------------------------

/// The outline of a layer, in its own coordinates.
#[derive(Debug, PartialEq)]
pub enum OutlinePlan {
    /// The path of a vector, with its corners rounded.
    Path(NodeId),
    /// The glyphs of a text.
    Glyphs(NodeId),
    /// A box at the origin.
    Box(Size),
    /// A box, where there is one, and then the parts, one after the other, each
    /// combined with what is there.
    Combined { op: BooleanOp, base: Option<Size>, parts: Vec<OutlinePart> },
    /// There is none.
    Unavailable(LayerError),
}

/// The outline of a child, and how it lies in its parent.
#[derive(Debug, PartialEq)]
pub struct OutlinePart {
    pub child: NodeId,
    pub transform: Transform,
    pub plan: OutlinePlan,
}

/// The layers of a list that are not hidden.
pub open spec fn visible(nodes: Seq<CanvasNode>) -> Seq<CanvasNode>
    decreases nodes.len(),
{
    if nodes.len() == 0 {
        Seq::empty()
    } else {
        let rest = visible(nodes.drop_last());
        if nodes.last().flags.hidden {
            rest
        } else {
            rest.push(nodes.last())
        }
    }
}

/// How the parts of a layer are combined.
pub open spec fn combination(data: NodeData) -> BooleanOp {
    match data {
        NodeData::Boolean(boolean) => boolean.op,
        _ => BooleanOp::Union,
    }
}

/// The box of a frame that shows a paint of its own.
pub open spec fn painted_box(data: NodeData) -> Option<Size> {
    match data {
        NodeData::Group(group) => if crate::layer_context_ops::shown_paints(data).len() > 0 {
            match group.clip_size {
                Some(size) => Some(size),
                None => group.local_size,
            }
        } else {
            None
        },
        _ => None,
    }
}

/// The plan is that of a layer, down to a depth. Hidden children take no part.
pub open spec fn plans(plan: OutlinePlan, doc: Doc, id: NodeId, depth: nat) -> bool
    decreases depth,
{
    match crate::scene::find(doc.nodes@, id) {
        None => plan == OutlinePlan::Unavailable(LayerError::MissingLayer),
        Some(node) => match *node.data {
            NodeData::Vector(_) => plan == OutlinePlan::Path(id),
            NodeData::Text(_) => plan == OutlinePlan::Glyphs(id),
            NodeData::Bitmap(bitmap) => plan == OutlinePlan::Box(bitmap.local_size),
            NodeData::Group(_) | NodeData::Boolean(_) => {
                let shown = visible(crate::scene::children(doc.nodes@, Some(id)));
                if painted_box(*node.data) is None && shown.len() == 0 {
                    plan == OutlinePlan::Unavailable(LayerError::NoGeometry)
                } else {
                    plan matches OutlinePlan::Combined { op, base, parts } && {
                        &&& op == combination(*node.data)
                        &&& base == painted_box(*node.data)
                        &&& parts@.len() == shown.len()
                        &&& forall|i: int|
                            0 <= i < shown.len() ==> places(#[trigger] parts@[i], shown[i]) && (
                            depth > 0 ==> plans(
                                parts@[i].plan,
                                doc,
                                shown[i].id,
                                (depth - 1) as nat,
                            ))
                    }
                }
            },
            _ => plan == OutlinePlan::Unavailable(LayerError::NoVectorGeometry),
        },
    }
}

/// The part stands for a child, where it lies.
pub open spec fn places(part: OutlinePart, node: CanvasNode) -> bool {
    part.child == node.id && part.transform == node.transform
}

fn find_box(data: &NodeData) -> (size: Option<Size>)
    ensures
        size == painted_box(*data),
{
    match data {
        NodeData::Group(group) => {
            let shown = paints(data);
            if shown.is_empty() {
                return None;
            }
            match group.clip_size {
                Some(size) => Some(size),
                None => group.local_size,
            }
        },
        _ => None,
    }
}

fn plan_parts(doc: &Doc, id: NodeId, depth: usize) -> (parts: Vec<OutlinePart>)
    requires
        doc.well_formed(),
    ensures
        ({
            let shown = visible(crate::scene::children(doc.nodes@, Some(id)));
            &&& parts@.len() == shown.len()
            &&& forall|i: int|
                0 <= i < shown.len() ==> places(#[trigger] parts@[i], shown[i]) && (depth > 0
                    ==> plans(parts@[i].plan, *doc, shown[i].id, (depth - 1) as nat))
        }),
    decreases depth, 0int,
{
    let ghost kids = crate::scene::children(doc.nodes@, Some(id));
    let children = doc.children_of(Some(id));
    let mut parts: Vec<OutlinePart> = Vec::new();
    let mut n: usize = 0;
    assert(kids.take(0) =~= Seq::<CanvasNode>::empty());
    while n < children.len()
        invariant
            n <= children@.len(),
            doc.well_formed(),
            kids == crate::scene::children(doc.nodes@, Some(id)),
            children@ == crate::scene::ids_of(kids),
            parts@.len() == visible(kids.take(n as int)).len(),
            forall|i: int|
                0 <= i < parts@.len() ==> places(
                    #[trigger] parts@[i],
                    visible(kids.take(n as int))[i],
                ) && (depth > 0 ==> plans(
                    parts@[i].plan,
                    *doc,
                    visible(kids.take(n as int))[i].id,
                    (depth - 1) as nat,
                )),
        decreases children@.len() - n,
    {
        let child = children[n];
        let ghost before = parts@;
        let ghost seen = visible(kids.take(n as int));
        proof {
            crate::content_walk::lemma_child_found(*doc, Some(id), n as int);
            assert(child == kids[n as int].id);
            assert(kids.take(n + 1).drop_last() =~= kids.take(n as int));
            assert(kids.take(n + 1).last() == kids[n as int]);
        }
        if let Some(node) = doc.get(child) {
            if !node.flags.hidden {
                let plan = if depth > 0 {
                    plan_outline(doc, child, depth - 1)
                } else {
                    OutlinePlan::Unavailable(LayerError::MissingLayer)
                };
                parts.push(OutlinePart { child, transform: node.transform, plan });
                proof {
                    let next = visible(kids.take(n + 1));
                    assert(next == seen.push(*node));
                    assert forall|i: int| 0 <= i < parts@.len() implies places(
                        #[trigger] parts@[i],
                        next[i],
                    ) && (depth > 0 ==> plans(
                        parts@[i].plan,
                        *doc,
                        next[i].id,
                        (depth - 1) as nat,
                    )) by {
                        if i < before.len() {
                            assert(parts@[i] == before[i]);
                            assert(next[i] == seen[i]);
                        }
                    }
                }
            }
        }
        n = n + 1;
    }
    assert(kids.take(kids.len() as int) =~= kids);
    parts
}

fn plan_outline(doc: &Doc, id: NodeId, depth: usize) -> (plan: OutlinePlan)
    requires
        doc.well_formed(),
    ensures
        plans(plan, *doc, id, depth as nat),
    decreases depth, 1int,
{
    let node = match doc.get(id) {
        None => {
            return OutlinePlan::Unavailable(LayerError::MissingLayer);
        },
        Some(node) => node,
    };
    let op = match &*node.data {
        NodeData::Vector(_) => {
            return OutlinePlan::Path(id);
        },
        NodeData::Text(_) => {
            return OutlinePlan::Glyphs(id);
        },
        NodeData::Bitmap(bitmap) => {
            return OutlinePlan::Box(bitmap.local_size);
        },
        NodeData::Group(_) => BooleanOp::Union,
        NodeData::Boolean(boolean) => boolean.op,
        _ => {
            return OutlinePlan::Unavailable(LayerError::NoVectorGeometry);
        },
    };
    let base = find_box(&node.data);
    let parts = plan_parts(doc, id, depth);
    if base.is_none() && parts.len() == 0 {
        return OutlinePlan::Unavailable(LayerError::NoGeometry);
    }
    OutlinePlan::Combined { op, base, parts }
}

/// How the outline of a layer is put together.
pub fn local_outline(doc: &Doc, id: NodeId) -> (plan: OutlinePlan)
    requires
        doc.well_formed(),
    ensures
        plans(plan, *doc, id, doc.nodes@.len()),
{
    plan_outline(doc, id, doc.nodes.len())
}

proof fn lemma_visible_not_hidden(nodes: Seq<CanvasNode>)
    ensures
        forall|i: int|
            0 <= i < visible(nodes).len() ==> !(#[trigger] visible(nodes)[i]).flags.hidden
                && nodes.contains(visible(nodes)[i]),
    decreases nodes.len(),
{
    if nodes.len() > 0 {
        let front = nodes.drop_last();
        lemma_visible_not_hidden(front);
        let rest = visible(front);
        assert forall|i: int| 0 <= i < visible(nodes).len() implies !(
        #[trigger] visible(nodes)[i]).flags.hidden && nodes.contains(visible(nodes)[i]) by {
            if i < rest.len() {
                assert(visible(nodes)[i] == rest[i]);
                let at = choose|at: int| 0 <= at < front.len() && front[at] == rest[i];
                assert(nodes[at] == rest[i]);
            } else {
                assert(nodes[nodes.len() - 1] == visible(nodes)[i]);
            }
        }
    }
}

/// A hidden layer adds nothing to the outline of its parent.
pub proof fn lemma_hidden_adds_nothing(
    plan: OutlinePlan,
    doc: Doc,
    id: NodeId,
    depth: nat,
    i: int,
)
    requires
        doc.well_formed(),
        plans(plan, doc, id, depth),
        plan is Combined,
        0 <= i < plan->Combined_parts@.len(),
    ensures
        crate::scene::find(doc.nodes@, plan->Combined_parts@[i].child) matches Some(child)
            && !child.flags.hidden && child.parent == Some(id),
{
    let kids = crate::scene::children(doc.nodes@, Some(id));
    let shown = visible(kids);
    lemma_visible_not_hidden(kids);
    assert(places(plan->Combined_parts@[i], shown[i]));
    let at = choose|at: int| 0 <= at < kids.len() && kids[at] == shown[i];
    crate::content_walk::lemma_child_found(doc, Some(id), at);
}

// ---------------------------------------------------------------------------
// Strokes
// ---------------------------------------------------------------------------

/// What is kept of the ring around an outline.
#[derive(Clone, Copy, Debug, PartialEq, Eq, Structural)]
pub enum RingCut {
    Whole,
    /// What lies inside the outline; the ring is drawn twice as wide.
    Inside,
    /// What lies outside of it; the ring is drawn twice as wide.
    Outside,
}

#[derive(Clone, Copy, Debug, PartialEq, Eq, Structural)]
pub struct SideRing {
    /// Top, right, bottom and left, from 0 on.
    pub side: u8,
    pub width: Scalar,
}

/// The outline of a stroke: one ring all around, or a piece of a ring for every
/// border that has a width.
#[derive(Debug, PartialEq)]
pub enum StrokePlan {
    Ring { cut: RingCut, width: Scalar },
    Sides { cut: RingCut, sides: Vec<SideRing> },
}

pub open spec fn cut_of(align: StrokeAlign) -> RingCut {
    match align {
        StrokeAlign::Center => RingCut::Whole,
        StrokeAlign::Inside => RingCut::Inside,
        StrokeAlign::Outside => RingCut::Outside,
    }
}

/// The borders, among the first `n`, that have a width.
pub open spec fn wide_sides(sides: Quad, n: nat) -> Seq<SideRing>
    decreases n,
{
    if n == 0 {
        Seq::empty()
    } else {
        let rest = wide_sides(sides, (n - 1) as nat);
        let width = sides.at((n - 1) as u8);
        if width.le(Scalar::of(crate::scalar::ZERO)) {
            rest
        } else {
            rest.push(SideRing { side: (n - 1) as u8, width: width })
        }
    }
}

/// How the outline of a stroke is put together.
pub fn stroke_geometry(stroke: &Stroke) -> (plan: StrokePlan)
    ensures
        match stroke.per_side {
            None => plan == (StrokePlan::Ring { cut: cut_of(stroke.align), width: stroke.width }),
            Some(sides) => plan matches StrokePlan::Sides { cut, sides: rings } && cut == cut_of(
                stroke.align,
            ) && rings@ == wide_sides(sides, 4),
        },
{
    let cut = match stroke.align {
        StrokeAlign::Center => RingCut::Whole,
        StrokeAlign::Inside => RingCut::Inside,
        StrokeAlign::Outside => RingCut::Outside,
    };
    match stroke.per_side {
        None => StrokePlan::Ring { cut, width: stroke.width },
        Some(sides) => {
            let mut rings: Vec<SideRing> = Vec::new();
            let mut side: u8 = 0;
            let zero = Scalar::of(crate::scalar::ZERO);
            while side < 4
                invariant
                    side <= 4,
                    zero == Scalar::of(crate::scalar::ZERO),
                    rings@ == wide_sides(sides, side as nat),
                decreases 4 - side,
            {
                let width = sides.at(side);
                if !width.at_most(zero) {
                    rings.push(SideRing { side, width });
                }
                side = side + 1;
                assert(rings@ == wide_sides(sides, side as nat));
            }
            StrokePlan::Sides { cut, sides: rings }
        },
    }
}

} // verus!
