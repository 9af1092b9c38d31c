//! Read model of the layers panel: the tree of a page, and the kinds of its
//! rows.

use vstd::prelude::*;
use vstd::string::*;

use crate::document::{CanvasNode, Doc, NodeData, ParametricShape, PathData, PathSegment};
use crate::ids::{holds, ComponentId, NodeId};

verus! {

#[derive(Clone, Copy, Debug, PartialEq, Eq, Structural)]
pub enum LayerKind {
    Mask,
    ComponentSet,
    Component,
    Frame,
    Group,
    Ellipse,
    Star,
    Polygon,
    Rectangle,
    Line,
    Vector,
    Text,
    Image,
    Video,
    Instance,
    BooleanOperation,
    Other,
}

#[derive(Debug, PartialEq)]
pub struct LayerItem {
    pub id: NodeId,
    pub title: String,
    pub kind: LayerKind,
    pub children: Vec<LayerItem>,
    pub visible: bool,
    pub locked: bool,
}

/// What the kinds need beyond a layer's own data.
#[derive(Debug, PartialEq)]
pub struct KindContext {
    /// Layers that draw a component.
    pub component_roots: Vec<NodeId>,
    /// Frames that hold a variant set: the parents of what its members draw.
    pub component_set_frames: Vec<NodeId>,
}

/// The frame holds a variant of a set: some member's drawing is below it.
pub open spec fn holds_variant(doc: Doc, id: NodeId) -> bool {
    exists|s: int, m: int, d: int| #[trigger] member_below(doc, s, m, d, id)
}

/// What a member of a set draws stands below the frame.
pub open spec fn member_below(doc: Doc, s: int, m: int, d: int, id: NodeId) -> bool {
    &&& 0 <= s < doc.sets@.len()
    &&& 0 <= m < doc.sets@[s].members@.len()
    &&& 0 <= d < doc.components@.len()
    &&& doc.components@[d].id == doc.sets@[s].members@[m]
    &&& crate::scene::find(doc.nodes@, doc.components@[d].root) matches Some(node) && node.parent
        == Some(id)
}

impl KindContext {
    /// The context tells the roots and the frames of a document.
    pub open spec fn tells(self, doc: Doc) -> bool {
        &&& forall|id: NodeId| #[trigger]
            self.component_roots@.contains(id) <==> crate::layer_context_ops::draws_component(
                doc,
                id,
            )
        &&& forall|id: NodeId| #[trigger]
            self.component_set_frames@.contains(id) <==> holds_variant(doc, id)
    }

    pub fn from_doc(doc: &Doc) -> (context: KindContext)
        ensures
            context.tells(*doc),
    {
        KindContext {
            component_roots: roots_of_components(doc),
            component_set_frames: frames_of_sets(doc),
        }
    }
}

fn roots_of_components(doc: &Doc) -> (roots: Vec<NodeId>)
    ensures
        forall|id: NodeId| #[trigger]
            roots@.contains(id) <==> crate::layer_context_ops::draws_component(*doc, id),
{
    let mut roots: Vec<NodeId> = Vec::new();
    let mut i: usize = 0;
    while i < doc.components.len()
        invariant
            i <= doc.components@.len(),
            roots@.len() == i,
            forall|k: int| 0 <= k < i ==> roots@[k] == (#[trigger] doc.components@[k]).root,
        decreases doc.components@.len() - i,
    {
        roots.push(doc.components[i].root);
        i = i + 1;
    }
    proof {
        assert forall|id: NodeId| #[trigger]
            roots@.contains(id) <==> crate::layer_context_ops::draws_component(*doc, id) by {
            if roots@.contains(id) {
                let k = choose|k: int| 0 <= k < roots@.len() && roots@[k] == id;
                assert(doc.components@[k].root == id);
            }
            if crate::layer_context_ops::draws_component(*doc, id) {
                let k = choose|k: int|
                    0 <= k < doc.components@.len() && (#[trigger] doc.components@[k]).root == id;
                assert(roots@[k] == id);
            }
        }
    }
    roots
}

/// Some component with the id draws below the frame.
pub open spec fn component_below(doc: Doc, component: ComponentId, n: int, id: NodeId) -> bool {
    exists|d: int|
        0 <= d < n && (#[trigger] doc.components@[d]).id == component && (crate::scene::find(
            doc.nodes@,
            doc.components@[d].root,
        ) matches Some(node) && node.parent == Some(id))
}

/// Some of the first members of a set draws below the frame.
pub open spec fn members_below(doc: Doc, s: int, n: int, id: NodeId) -> bool {
    exists|m: int|
        0 <= m < n && #[trigger] component_below(
            doc,
            doc.sets@[s].members@[m],
            doc.components@.len() as int,
            id,
        )
}

/// Some member of the first sets draws below the frame.
pub open spec fn sets_below(doc: Doc, n: int, id: NodeId) -> bool {
    exists|s: int|
        0 <= s < n && #[trigger] members_below(doc, s, doc.sets@[s].members@.len() as int, id)
}

fn push_frames(doc: &Doc, component: ComponentId, frames: &mut Vec<NodeId>)
    ensures
        forall|id: NodeId| #[trigger]
            final(frames)@.contains(id) <==> old(frames)@.contains(id) || component_below(
                *doc,
                component,
                doc.components@.len() as int,
                id,
            ),
{
    let ghost start = frames@;
    let mut d: usize = 0;
    while d < doc.components.len()
        invariant
            d <= doc.components@.len(),
            forall|id: NodeId| #[trigger]
                frames@.contains(id) <==> start.contains(id) || component_below(
                    *doc,
                    component,
                    d as int,
                    id,
                ),
        decreases doc.components@.len() - d,
    {
        let ghost before = frames@;
        let ghost mut pushed: Option<NodeId> = None;
        if doc.components[d].id == component {
            if let Some(node) = doc.get(doc.components[d].root) {
                if let Some(parent) = node.parent {
                    frames.push(parent);
                    proof {
                        pushed = Some(parent);
                    }
                }
            }
        }
        proof {
            assert forall|id: NodeId| #[trigger]
                frames@.contains(id) <==> start.contains(id) || component_below(
                    *doc,
                    component,
                    d + 1,
                    id,
                ) by {
                assert(before.contains(id) <==> start.contains(id) || component_below(
                    *doc,
                    component,
                    d as int,
                    id,
                ));
                if component_below(*doc, component, d + 1, id) {
                    let k = choose|k: int|
                        0 <= k < d + 1 && (#[trigger] doc.components@[k]).id == component && (
                        crate::scene::find(
                            doc.nodes@,
                            doc.components@[k].root,
                        ) matches Some(node) && node.parent == Some(id));
                    if k < d {
                        assert(component_below(*doc, component, d as int, id));
                    }
                }
                if component_below(*doc, component, d as int, id) {
                    let k = choose|k: int|
                        0 <= k < d && (#[trigger] doc.components@[k]).id == component && (
                        crate::scene::find(
                            doc.nodes@,
                            doc.components@[k].root,
                        ) matches Some(node) && node.parent == Some(id));
                    assert(doc.components@[k].id == component);
                }
                if pushed is Some {
                    assert(frames@ =~= before.push(pushed->0));
                    assert(frames@.contains(id) <==> before.contains(id) || id == pushed->0) by {
                        if before.contains(id) {
                            let k = choose|k: int| 0 <= k < before.len() && before[k] == id;
                            assert(frames@[k] == id);
                        }
                        if id == pushed->0 {
                            assert(frames@[before.len() as int] == id);
                        }
                    }
                    assert(doc.components@[d as int].id == component);
                }
            }
        }
        d = d + 1;
    }
}

fn frames_of_sets(doc: &Doc) -> (frames: Vec<NodeId>)
    ensures
        forall|id: NodeId| #[trigger] frames@.contains(id) <==> holds_variant(*doc, id),
{
    let mut frames: Vec<NodeId> = Vec::new();
    let mut s: usize = 0;
    while s < doc.sets.len()
        invariant
            s <= doc.sets@.len(),
            forall|id: NodeId| #[trigger]
                frames@.contains(id) <==> sets_below(*doc, s as int, id),
        decreases doc.sets@.len() - s,
    {
        let ghost start = frames@;
        let set = &doc.sets[s];
        let mut m: usize = 0;
        while m < set.members.len()
            invariant
                s < doc.sets@.len(),
                *set == doc.sets@[s as int],
                m <= set.members@.len(),
                forall|id: NodeId| #[trigger]
                    frames@.contains(id) <==> start.contains(id) || members_below(
                        *doc,
                        s as int,
                        m as int,
                        id,
                    ),
            decreases set.members@.len() - m,
        {
            let ghost before = frames@;
            let member = set.members[m];
            push_frames(doc, member, &mut frames);
            proof {
                let n = doc.components@.len() as int;
                assert forall|id: NodeId| #[trigger]
                    frames@.contains(id) <==> start.contains(id) || members_below(
                        *doc,
                        s as int,
                        m + 1,
                        id,
                    ) by {
                    assert(before.contains(id) <==> start.contains(id) || members_below(
                        *doc,
                        s as int,
                        m as int,
                        id,
                    ));
                    if members_below(*doc, s as int, m + 1, id) {
                        let k = choose|k: int|
                            0 <= k < m + 1 && #[trigger] component_below(
                                *doc,
                                doc.sets@[s as int].members@[k],
                                n,
                                id,
                            );
                        if k < m {
                            assert(members_below(*doc, s as int, m as int, id));
                        }
                    }
                    if members_below(*doc, s as int, m as int, id) {
                        let k = choose|k: int|
                            0 <= k < m && #[trigger] component_below(
                                *doc,
                                doc.sets@[s as int].members@[k],
                                n,
                                id,
                            );
                        assert(component_below(*doc, doc.sets@[s as int].members@[k], n, id));
                    }
                    if component_below(*doc, member, n, id) {
                        assert(component_below(
                            *doc,
                            doc.sets@[s as int].members@[m as int],
                            n,
                            id,
                        ));
                    }
                }
            }
            m = m + 1;
        }
        proof {
            assert forall|id: NodeId| #[trigger]
                frames@.contains(id) <==> sets_below(*doc, s + 1, id) by {
                assert(start.contains(id) <==> sets_below(*doc, s as int, id));
                let len = set.members@.len() as int;
                if sets_below(*doc, s + 1, id) {
                    let k = choose|k: int|
                        0 <= k < s + 1 && #[trigger] members_below(
                            *doc,
                            k,
                            doc.sets@[k].members@.len() as int,
                            id,
                        );
                    if k < s {
                        assert(sets_below(*doc, s as int, id));
                    }
                }
                if sets_below(*doc, s as int, id) {
                    let k = choose|k: int|
                        0 <= k < s && #[trigger] members_below(
                            *doc,
                            k,
                            doc.sets@[k].members@.len() as int,
                            id,
                        );
                    assert(members_below(*doc, k, doc.sets@[k].members@.len() as int, id));
                }
                if members_below(*doc, s as int, len, id) {
                    assert(sets_below(*doc, s + 1, id));
                }
            }
        }
        s = s + 1;
    }
    proof {
        assert forall|id: NodeId| #[trigger]
            frames@.contains(id) <==> holds_variant(*doc, id) by {
            let n = doc.components@.len() as int;
            if sets_below(*doc, doc.sets@.len() as int, id) {
                let s = choose|s: int|
                    0 <= s < doc.sets@.len() && #[trigger] members_below(
                        *doc,
                        s,
                        doc.sets@[s].members@.len() as int,
                        id,
                    );
                let m = choose|m: int|
                    0 <= m < doc.sets@[s].members@.len() && #[trigger] component_below(
                        *doc,
                        doc.sets@[s].members@[m],
                        n,
                        id,
                    );
                let d = choose|d: int|
                    0 <= d < n && (#[trigger] doc.components@[d]).id == doc.sets@[s].members@[m]
                        && (crate::scene::find(
                        doc.nodes@,
                        doc.components@[d].root,
                    ) matches Some(node) && node.parent == Some(id));
                assert(member_below(*doc, s, m, d, id));
            }
            if holds_variant(*doc, id) {
                let (s, m, d) = choose|s: int, m: int, d: int| #[trigger]
                    member_below(*doc, s, m, d, id);
                assert(doc.components@[d].id == doc.sets@[s].members@[m]);
                assert(component_below(*doc, doc.sets@[s].members@[m], n, id));
                assert(members_below(*doc, s, doc.sets@[s].members@.len() as int, id));
                assert(sets_below(*doc, doc.sets@.len() as int, id));
            }
        }
    }
    frames
}

/// A single open line between two points.
pub open spec fn two_point_line(path: PathData) -> bool {
    path.segments@.len() == 2 && path.segments@[0] is Move && path.segments@[1] is Line
}

fn is_two_point_open_path(path: &PathData) -> (r: bool)
    ensures
        r == two_point_line(*path),
{
    if path.segments.len() != 2 {
        return false;
    }
    let starts = match path.segments[0] {
        PathSegment::Move { .. } => true,
        _ => false,
    };
    let ends = match path.segments[1] {
        PathSegment::Line { .. } => true,
        _ => false,
    };
    starts && ends
}

/// The kind of a row. A mask is a mask whatever its shape; groups split into
/// sets, components, frames and groups; outlines recover the shape they were
/// drawn as.
pub open spec fn kind_shown(doc: Doc, id: NodeId, node: CanvasNode) -> LayerKind {
    if node.is_mask {
        LayerKind::Mask
    } else {
        match *node.data {
            NodeData::Group(group) => if holds_variant(doc, id) {
                LayerKind::ComponentSet
            } else if crate::layer_context_ops::draws_component(doc, id) {
                LayerKind::Component
            } else if group.frame_surface {
                LayerKind::Frame
            } else {
                LayerKind::Group
            },
            NodeData::Vector(vector) => match vector.parametric {
                Some(ParametricShape::Arc { .. }) => LayerKind::Ellipse,
                Some(ParametricShape::Star { .. }) => LayerKind::Star,
                Some(ParametricShape::Polygon { .. }) => LayerKind::Polygon,
                None => if vector.path.rectangle {
                    LayerKind::Rectangle
                } else if two_point_line(vector.path) {
                    LayerKind::Line
                } else {
                    LayerKind::Vector
                },
            },
            NodeData::Text(_) => LayerKind::Text,
            NodeData::TextPath { .. } => LayerKind::Text,
            NodeData::Bitmap(_) => LayerKind::Image,
            NodeData::Video(_) => LayerKind::Video,
            NodeData::Instance(_) => LayerKind::Instance,
            NodeData::Boolean(_) => LayerKind::BooleanOperation,
            _ => LayerKind::Other,
        }
    }
}

pub fn layers_kind(
    id: NodeId,
    node: &CanvasNode,
    context: &KindContext,
    doc: &Doc,
) -> (kind: LayerKind)
    requires
        context.tells(*doc),
    ensures
        kind == kind_shown(*doc, id, *node),
{
    if node.is_mask {
        return LayerKind::Mask;
    }
    match &*node.data {
        NodeData::Group(group) => if holds(&context.component_set_frames, id) {
            LayerKind::ComponentSet
        } else if holds(&context.component_roots, id) {
            LayerKind::Component
        } else if group.frame_surface {
            LayerKind::Frame
        } else {
            LayerKind::Group
        },
        NodeData::Vector(vector) => match vector.parametric {
            Some(ParametricShape::Arc { .. }) => LayerKind::Ellipse,
            Some(ParametricShape::Star { .. }) => LayerKind::Star,
            Some(ParametricShape::Polygon { .. }) => LayerKind::Polygon,
            None => if vector.path.rectangle {
                LayerKind::Rectangle
            } else if is_two_point_open_path(&vector.path) {
                LayerKind::Line
            } else {
                LayerKind::Vector
            },
        },
        NodeData::Text(_) => LayerKind::Text,
        NodeData::TextPath { .. } => LayerKind::Text,
        NodeData::Bitmap(_) => LayerKind::Image,
        NodeData::Video(_) => LayerKind::Video,
        NodeData::Instance(_) => LayerKind::Instance,
        NodeData::Boolean(_) => LayerKind::BooleanOperation,
        _ => LayerKind::Other,
    }
}

/// The row shows a layer; its own rows are left out of account.
pub open spec fn row_of(item: LayerItem, doc: Doc, node: CanvasNode) -> bool {
    &&& item.id == node.id
    &&& item.title == node.name
    &&& item.kind == kind_shown(doc, node.id, node)
    &&& item.visible == !node.flags.hidden
    &&& item.locked == node.flags.locked
}

/// The rows show what is below a layer, the topmost first, down to a depth.
pub open spec fn rows_show(
    items: Seq<LayerItem>,
    doc: Doc,
    parent: Option<NodeId>,
    depth: nat,
) -> bool
    decreases depth,
{
    let kids = crate::scene::children(doc.nodes@, parent);
    if depth == 0 {
        items.len() == 0
    } else {
        &&& items.len() == kids.len()
        &&& forall|i: int|
            0 <= i < items.len() ==> row_of(#[trigger] items[i], doc, kids[kids.len() - 1 - i])
                && rows_show(
                items[i].children@,
                doc,
                Some(kids[kids.len() - 1 - i].id),
                (depth - 1) as nat,
            )
    }
}

fn build_children(
    doc: &Doc,
    parent: Option<NodeId>,
    context: &KindContext,
    depth: usize,
) -> (items: Vec<LayerItem>)
    requires
        doc.well_formed(),
        context.tells(*doc),
    ensures
        rows_show(items@, *doc, parent, depth as nat),
    decreases depth,
{
    let mut items: Vec<LayerItem> = Vec::new();
    if depth == 0 {
        return items;
    }
    let ghost kids = crate::scene::children(doc.nodes@, parent);
    let children = doc.children_of(parent);
    let mut n: usize = children.len();
    while n > 0
        invariant
            depth > 0,
            doc.well_formed(),
            context.tells(*doc),
            n <= children@.len(),
            kids == crate::scene::children(doc.nodes@, parent),
            children@ == crate::scene::ids_of(kids),
            items@.len() == kids.len() - n,
            forall|i: int|
                0 <= i < items@.len() ==> row_of(
                    #[trigger] items@[i],
                    *doc,
                    kids[kids.len() - 1 - i],
                ) && rows_show(
                    items@[i].children@,
                    *doc,
                    Some(kids[kids.len() - 1 - i].id),
                    (depth - 1) as nat,
                ),
        decreases n,
    {
        let child = children[n - 1];
        proof {
            crate::content_walk::lemma_child_found(*doc, parent, n - 1);
            assert(child == kids[n - 1].id);
        }
        if let Some(node) = doc.get(child) {
            let kind = layers_kind(child, node, context, doc);
            let below = build_children(doc, Some(child), context, depth - 1);
            items.push(
                LayerItem {
                    id: child,
                    title: node.name.clone(),
                    kind,
                    children: below,
                    visible: !node.flags.hidden,
                    locked: node.flags.locked,
                },
            );
        }
        n = n - 1;
    }
    items
}

/// The tree of a page, or of all top layers where no page is given. The topmost
/// layer comes first.
pub fn layers_tree(doc: &Doc, page_root: Option<NodeId>) -> (items: Vec<LayerItem>)
    requires
        doc.well_formed(),
    ensures
        rows_show(items@, *doc, page_root, doc.nodes@.len()),
        forall|path: Seq<NodeId>| #[trigger]
            leads_down(*doc, page_root, path) ==> row_at(items@, path),
{
    let context = KindContext::from_doc(doc);
    let items = build_children(doc, page_root, &context, doc.nodes.len());
    proof {
        assert forall|path: Seq<NodeId>| #[trigger] leads_down(*doc, page_root, path) implies row_at(
            items@,
            path,
        ) by {
            lemma_path_short(*doc, page_root, path);
            lemma_path_has_row(items@, *doc, page_root, doc.nodes@.len(), path);
        }
    }
    items
}

/// Each layer of the path stands right below the one before it, and the first
/// below the parent; none occurs twice.
pub open spec fn leads_down(doc: Doc, parent: Option<NodeId>, path: Seq<NodeId>) -> bool {
    &&& path.len() > 0
    &&& path.no_duplicates()
    &&& forall|i: int|
        0 <= i < path.len() ==> doc.content().nodes.dom().contains(#[trigger] path[i])
            && doc.content().nodes[path[i]].parent == (if i == 0 {
            parent
        } else {
            Some(path[i - 1])
        })
}

/// The rows hold one for the first of the path, which holds one for the next, and
/// so on to its end.
pub open spec fn row_at(items: Seq<LayerItem>, path: Seq<NodeId>) -> bool
    decreases path.len(),
{
    path.len() > 0 && exists|i: int|
        0 <= i < items.len() && (#[trigger] items[i]).id == path[0] && (path.len() == 1 || row_at(
            items[i].children@,
            path.drop_first(),
        ))
}

proof fn lemma_path_short(doc: Doc, parent: Option<NodeId>, path: Seq<NodeId>)
    requires
        doc.well_formed(),
        leads_down(doc, parent, path),
    ensures
        path.len() <= doc.nodes@.len(),
{
    let known = doc.content().nodes.dom();
    crate::keyed::lemma_keyed_len(doc.nodes@, crate::operations::node_key());
    path.unique_seq_to_set();
    assert(path.to_set().subset_of(known)) by {
        assert forall|id: NodeId| path.to_set().contains(id) implies known.contains(id) by {
            let i = choose|i: int| 0 <= i < path.len() && path[i] == id;
            assert(known.contains(path[i]));
        }
    }
    vstd::set_lib::lemma_len_subset(path.to_set(), known);
}

proof fn lemma_path_has_row(
    items: Seq<LayerItem>,
    doc: Doc,
    parent: Option<NodeId>,
    depth: nat,
    path: Seq<NodeId>,
)
    requires
        doc.well_formed(),
        rows_show(items, doc, parent, depth),
        leads_down(doc, parent, path),
        path.len() <= depth,
    ensures
        row_at(items, path),
    decreases depth,
{
    assert(doc.content().nodes.dom().contains(path[0]));
    lemma_rows_are_layers(items, doc, parent, depth);
    let i = choose|i: int| 0 <= i < items.len() && (#[trigger] items[i]).id == path[0];
    assert(items[i].id == path[0]);
    if path.len() > 1 {
        let rest = path.drop_first();
        assert forall|k: int| 0 <= k < rest.len() implies doc.content().nodes.dom().contains(
            #[trigger] rest[k],
        ) && doc.content().nodes[rest[k]].parent == (if k == 0 {
            Some(path[0])
        } else {
            Some(rest[k - 1])
        }) by {
            assert(rest[k] == path[k + 1]);
        }
        lemma_path_has_row(items[i].children@, doc, Some(path[0]), (depth - 1) as nat, rest);
    }
}

/// Every layer right below a parent has one row, which shows its name, whether it
/// is seen and whether it is locked; what is painted later comes first. What is
/// below a layer is shown in the rows of its row.
pub proof fn lemma_rows_are_layers(
    items: Seq<LayerItem>,
    doc: Doc,
    parent: Option<NodeId>,
    depth: nat,
)
    requires
        doc.well_formed(),
        rows_show(items, doc, parent, depth),
        depth > 0,
    ensures
        forall|i: int|
            0 <= i < items.len() ==> {
                let node = doc.content().nodes[(#[trigger] items[i]).id];
                &&& doc.content().nodes.dom().contains(items[i].id)
                &&& node.parent == parent
                &&& items[i].title@ == node.name@
                &&& items[i].visible == !node.flags.hidden
                &&& items[i].locked == node.flags.locked
                &&& rows_show(items[i].children@, doc, Some(items[i].id), (depth - 1) as nat)
            },
        forall|id: NodeId| #[trigger]
            doc.content().nodes.dom().contains(id) && doc.content().nodes[id].parent == parent
                ==> exists|i: int| 0 <= i < items.len() && (#[trigger] items[i]).id == id,
        forall|i: int, j: int|
            0 <= i < j < items.len() ==> (#[trigger] items[i]).id != (#[trigger] items[j]).id
                && doc.content().nodes[items[i].id].index.rank
                >= doc.content().nodes[items[j].id].index.rank,
{
    let kids = crate::scene::children(doc.nodes@, parent);
    let known = doc.content().nodes;
    crate::content_walk::lemma_children_distinct(doc, parent);
    crate::scene::lemma_children_sorted(doc.nodes@, parent);
    crate::content_walk::lemma_children_members(doc.nodes@, parent);
    assert forall|i: int| 0 <= i < items.len() implies {
        let kid = kids[kids.len() - 1 - i];
        &&& (#[trigger] items[i]).id == kid.id
        &&& known.dom().contains(kid.id)
        &&& known[kid.id] == kid
        &&& kid.parent == parent
        &&& row_of(items[i], doc, kid)
        &&& rows_show(items[i].children@, doc, Some(kid.id), (depth - 1) as nat)
    } by {
        crate::content_walk::lemma_child_found(doc, parent, kids.len() - 1 - i);
        crate::operations::lemma_find_is_content(doc, kids[kids.len() - 1 - i].id);
    }
    assert forall|id: NodeId| #[trigger]
        known.dom().contains(id) && known[id].parent == parent implies exists|i: int|
        0 <= i < items.len() && (#[trigger] items[i]).id == id by {
        crate::operations::lemma_find_is_content(doc, id);
        crate::scene::lemma_find_has_id(doc.nodes@, id);
        assert(kids.contains(known[id]));
        let k = choose|k: int| 0 <= k < kids.len() && kids[k] == known[id];
        assert(items[kids.len() - 1 - k].id == id);
    }
    assert forall|i: int, j: int| 0 <= i < j < items.len() implies (#[trigger] items[i]).id != (
    #[trigger] items[j]).id && known[items[i].id].index.rank >= known[items[j].id].index.rank by {
        let a = kids[kids.len() - 1 - j];
        let b = kids[kids.len() - 1 - i];
        assert(a.id != b.id && a.index.rank <= b.index.rank);
    }
}

/// What the kind of a row says of the layer: a mask is a mask whatever else it is;
/// of the other groups, one with a variant right below it is a set, one that draws
/// a component is a component, one that paints or clips is a frame, and the rest
/// are groups; outlines tell the shape that they were drawn as.
pub proof fn lemma_kind_tells(item: LayerItem, doc: Doc, node: CanvasNode)
    requires
        row_of(item, doc, node),
    ensures
        item.kind is Mask <==> node.is_mask,
        !node.is_mask ==> match *node.data {
            NodeData::Group(group) => {
                let set = exists|s: int, m: int, d: int|
                    #![trigger doc.sets@[s].members@[m], doc.components@[d]]
                    0 <= s < doc.sets@.len() && 0 <= m < doc.sets@[s].members@.len() && 0 <= d
                        < doc.components@.len() && doc.components@[d].id
                        == doc.sets@[s].members@[m] && (crate::scene::find(
                        doc.nodes@,
                        doc.components@[d].root,
                    ) matches Some(drawn) && drawn.parent == Some(node.id));
                let component = exists|d: int|
                    0 <= d < doc.components@.len() && (#[trigger] doc.components@[d]).root
                        == node.id;
                &&& item.kind is ComponentSet <==> set
                &&& item.kind is Component <==> !set && component
                &&& item.kind is Frame <==> !set && !component && group.frame_surface
                &&& item.kind is Group <==> !set && !component && !group.frame_surface
            },
            NodeData::Vector(vector) => {
                let line = vector.path.segments@.len() == 2 && vector.path.segments@[0] is Move
                    && vector.path.segments@[1] is Line;
                &&& item.kind is Ellipse <==> (vector.parametric matches Some(shape) && shape is Arc)
                &&& item.kind is Star <==> (vector.parametric matches Some(shape) && shape is Star)
                &&& item.kind is Polygon <==> (vector.parametric matches Some(shape)
                    && shape is Polygon)
                &&& item.kind is Rectangle <==> vector.parametric is None && vector.path.rectangle
                &&& item.kind is Line <==> vector.parametric is None && !vector.path.rectangle
                    && line
                &&& item.kind is Vector <==> vector.parametric is None && !vector.path.rectangle
                    && !line
            },
            NodeData::Text(_) => item.kind is Text,
            NodeData::TextPath { .. } => item.kind is Text,
            NodeData::Bitmap(_) => item.kind is Image,
            NodeData::Video(_) => item.kind is Video,
            NodeData::Instance(_) => item.kind is Instance,
            NodeData::Boolean(_) => item.kind is BooleanOperation,
            _ => item.kind is Other,
        },
{
    let id = node.id;
    if holds_variant(doc, id) {
        let (s, m, d) = choose|s: int, m: int, d: int| #[trigger] member_below(doc, s, m, d, id);
        assert(doc.components@[d].id == doc.sets@[s].members@[m]);
    }
    assert forall|s: int, m: int, d: int|
        #![trigger doc.sets@[s].members@[m], doc.components@[d]]
        0 <= s < doc.sets@.len() && 0 <= m < doc.sets@[s].members@.len() && 0 <= d
            < doc.components@.len() && doc.components@[d].id == doc.sets@[s].members@[m] && (
        crate::scene::find(doc.nodes@, doc.components@[d].root) matches Some(drawn)
            && drawn.parent == Some(id)) implies holds_variant(doc, id) by {
        assert(member_below(doc, s, m, d, id));
    }
}

/// Every row of a tree tells the kind of its layer.
pub proof fn lemma_rows_tell_kinds(
    items: Seq<LayerItem>,
    doc: Doc,
    parent: Option<NodeId>,
    depth: nat,
)
    requires
        doc.well_formed(),
        rows_show(items, doc, parent, depth),
        depth > 0,
    ensures
        forall|i: int|
            0 <= i < items.len() ==> row_of(
                #[trigger] items[i],
                doc,
                doc.content().nodes[items[i].id],
            ),
{
    let kids = crate::scene::children(doc.nodes@, parent);
    assert forall|i: int| 0 <= i < items.len() implies row_of(
        #[trigger] items[i],
        doc,
        doc.content().nodes[items[i].id],
    ) by {
        crate::content_walk::lemma_child_found(doc, parent, kids.len() - 1 - i);
        crate::operations::lemma_find_is_content(doc, kids[kids.len() - 1 - i].id);
    }
}

/// Dropping a row before another paints it above, and behind it below: the panel
/// shows what is painted last first.
pub proof fn lemma_drop_turns_order(position: DropPosition, placement: LayerDropPlacement)
    requires
        call_ensures(drop_placement, (position,), placement),
    ensures
        placement is Above <==> position is Before,
        placement is Below <==> position is After,
        placement is Inside <==> position is Inside,
{
}

/// Rows come in the reverse of the order in which they are painted.
pub proof fn lemma_tree_reverses_paint_order(
    items: Seq<LayerItem>,
    doc: Doc,
    parent: Option<NodeId>,
    depth: nat,
)
    requires
        rows_show(items, doc, parent, depth),
        depth > 0,
    ensures
        items.map_values(|item: LayerItem| item.id) == crate::scene::ids_of(
            crate::scene::children(doc.nodes@, parent),
        ).reverse(),
{
    let kids = crate::scene::children(doc.nodes@, parent);
    let ids = items.map_values(|item: LayerItem| item.id);
    assert forall|i: int| 0 <= i < ids.len() implies ids[i] == crate::scene::ids_of(
        kids,
    ).reverse()[i] by {
        assert(row_of(items[i], doc, kids[kids.len() - 1 - i]));
    }
    assert(ids =~= crate::scene::ids_of(kids).reverse());
}

/// Where a dropped row goes, as seen in the panel.
#[derive(Clone, Copy, Debug, PartialEq, Eq, Structural)]
pub enum DropPosition {
    Before,
    Inside,
    After,
}

/// Where a dropped layer goes, as painted.
#[derive(Clone, Copy, Debug, PartialEq, Eq, Structural)]
pub enum LayerDropPlacement {
    Above,
    Inside,
    Below,
}

/// A row dropped before another is painted above it.
pub fn drop_placement(position: DropPosition) -> (placement: LayerDropPlacement)
    ensures
        placement == (match position {
            DropPosition::Before => LayerDropPlacement::Above,
            DropPosition::Inside => LayerDropPlacement::Inside,
            DropPosition::After => LayerDropPlacement::Below,
        }),
{
    match position {
        DropPosition::Before => LayerDropPlacement::Above,
        DropPosition::Inside => LayerDropPlacement::Inside,
        DropPosition::After => LayerDropPlacement::Below,
    }
}

} // verus!
