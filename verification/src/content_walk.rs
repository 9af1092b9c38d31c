//! The layer tree seen through what the document holds, so that it can be
//! followed from one operation to the next.

use vstd::prelude::*;

use crate::document::{CanvasNode, Doc, IndexKey};
use crate::ids::NodeId;

verus! {

/// The layers above one, nearest first.
pub open spec fn above_within(
    nodes: Map<NodeId, CanvasNode>,
    id: NodeId,
    fuel: nat,
) -> Seq<CanvasNode>
    decreases fuel,
{
    if fuel == 0 || !nodes.dom().contains(id) {
        Seq::empty()
    } else {
        match nodes[id].parent {
            None => Seq::empty(),
            Some(parent) => if nodes.dom().contains(parent) {
                seq![nodes[parent]] + above_within(nodes, parent, (fuel - 1) as nat)
            } else {
                Seq::empty()
            },
        }
    }
}

pub proof fn lemma_above_is_ancestors(doc: Doc, id: NodeId, fuel: nat)
    requires
        doc.well_formed(),
    ensures
        above_within(doc.content().nodes, id, fuel) == crate::scene::ancestors_within(doc.nodes@, id, fuel),
    decreases fuel,
{
    if fuel > 0 {
        crate::operations::lemma_find_is_content(doc, id);
        if let Some(node) = crate::scene::find(doc.nodes@, id) {
            if let Some(parent) = node.parent {
                crate::operations::lemma_find_is_content(doc, parent);
                lemma_above_is_ancestors(doc, parent, (fuel - 1) as nat);
            }
        }
    }
}

/// The layers above one, nearest first.
pub open spec fn above(nodes: Map<NodeId, CanvasNode>, id: NodeId) -> Seq<CanvasNode> {
    above_within(nodes, id, nodes.dom().len())
}

pub proof fn lemma_above(doc: Doc, id: NodeId)
    requires
        doc.well_formed(),
    ensures
        above(doc.content().nodes, id) == crate::scene::ancestors(doc.nodes@, id),
{
    crate::keyed::lemma_keyed_len(doc.nodes@, crate::operations::node_key());
    lemma_above_is_ancestors(doc, id, doc.nodes@.len());
}

/// The layer may be changed: it is there, it is not locked, it is no page, and
/// nothing above it is locked.
pub open spec fn may_edit(
    nodes: Map<NodeId, CanvasNode>,
    pages: Seq<NodeId>,
    id: NodeId,
) -> bool {
    &&& nodes.dom().contains(id)
    &&& !nodes[id].flags.locked
    &&& !pages.contains(id)
    &&& forall|i: int|
        0 <= i < above(nodes, id).len() ==> !(#[trigger] above(nodes, id)[i]).flags.locked
}

/// `key` is the largest, or smallest, key among the children of a parent.
pub open spec fn is_extreme(
    nodes: Map<NodeId, CanvasNode>,
    parent: Option<NodeId>,
    last: bool,
    key: IndexKey,
) -> bool {
    &&& exists|id: NodeId| #[trigger]
        nodes.dom().contains(id) && nodes[id].parent == parent && nodes[id].index == key
    &&& forall|id: NodeId| #[trigger]
        nodes.dom().contains(id) && nodes[id].parent == parent ==> if last {
            nodes[id].index.rank <= key.rank
        } else {
            key.rank <= nodes[id].index.rank
        }
}

pub open spec fn extreme_key(
    nodes: Map<NodeId, CanvasNode>,
    parent: Option<NodeId>,
    last: bool,
) -> Option<IndexKey> {
    if exists|key: IndexKey| is_extreme(nodes, parent, last, key) {
        Some(choose|key: IndexKey| is_extreme(nodes, parent, last, key))
    } else {
        None
    }
}

/// The key for a new child painted last.
pub open spec fn next_key(nodes: Map<NodeId, CanvasNode>, parent: Option<NodeId>) -> IndexKey {
    match extreme_key(nodes, parent, true) {
        Some(key) => IndexKey::after(key),
        None => IndexKey::initial(),
    }
}

pub proof fn lemma_extreme_unique(
    nodes: Map<NodeId, CanvasNode>,
    parent: Option<NodeId>,
    last: bool,
    key: IndexKey,
)
    requires
        is_extreme(nodes, parent, last, key),
    ensures
        extreme_key(nodes, parent, last) == Some(key),
{
    let other = choose|k: IndexKey| is_extreme(nodes, parent, last, k);
    assert(is_extreme(nodes, parent, last, other));
    let a = choose|id: NodeId| #[trigger]
        nodes.dom().contains(id) && nodes[id].parent == parent && nodes[id].index == key;
    let b = choose|id: NodeId| #[trigger]
        nodes.dom().contains(id) && nodes[id].parent == parent && nodes[id].index == other;
    assert(nodes.dom().contains(a) && nodes.dom().contains(b));
    assert(other.rank == key.rank);
    assert(other == key);
}

proof fn lemma_insert_members(layers: Seq<CanvasNode>, node: CanvasNode)
    ensures
        forall|x: CanvasNode| #[trigger]
            crate::scene::insert_sorted(layers, node).contains(x) <==> layers.contains(x) || x == node,
    decreases layers.len(),
{
    let all = crate::scene::insert_sorted(layers, node);
    if layers.len() == 0 || layers.last().index.rank <= node.index.rank {
        assert forall|x: CanvasNode| #[trigger] all.contains(x) <==> layers.contains(x) || x
            == node by {
            if layers.contains(x) {
                let i = choose|i: int| 0 <= i < layers.len() && layers[i] == x;
                assert(all[i] == x);
            }
            if x == node {
                assert(all[layers.len() as int] == x);
            }
        }
    } else {
        let front = layers.drop_last();
        let inner = crate::scene::insert_sorted(front, node);
        lemma_insert_members(front, node);
        assert forall|x: CanvasNode| #[trigger] all.contains(x) <==> layers.contains(x) || x
            == node by {
            assert(inner.contains(x) <==> front.contains(x) || x == node);
            if all.contains(x) {
                let i = choose|i: int| 0 <= i < all.len() && all[i] == x;
                if i < inner.len() {
                    assert(inner[i] == x);
                    assert(inner.contains(x));
                    if front.contains(x) {
                        let k = choose|k: int| 0 <= k < front.len() && front[k] == x;
                        assert(layers[k] == x);
                    }
                } else {
                    assert(layers[layers.len() - 1] == x);
                }
            }
            if layers.contains(x) {
                let i = choose|i: int| 0 <= i < layers.len() && layers[i] == x;
                if i < front.len() {
                    assert(front[i] == x);
                    assert(inner.contains(x));
                    let k = choose|k: int| 0 <= k < inner.len() && inner[k] == x;
                    assert(all[k] == x);
                } else {
                    assert(all[inner.len() as int] == x);
                }
            }
            if x == node {
                let k = choose|k: int| 0 <= k < inner.len() && inner[k] == x;
                assert(all[k] == x);
            }
        }
    }
}

/// The children of a parent are the layers that name it.
pub proof fn lemma_children_members(nodes: Seq<CanvasNode>, parent: Option<NodeId>)
    ensures
        forall|x: CanvasNode| #[trigger]
            crate::scene::children(nodes, parent).contains(x) <==> nodes.contains(x) && x.parent == parent,
    decreases nodes.len(),
{
    if nodes.len() > 0 {
        let front = nodes.drop_last();
        lemma_children_members(front, parent);
        if nodes.last().parent == parent {
            lemma_insert_members(crate::scene::children(front, parent), nodes.last());
        }
        assert forall|x: CanvasNode| #[trigger]
            crate::scene::children(nodes, parent).contains(x) <==> nodes.contains(x) && x.parent == parent by {
            assert(crate::scene::children(front, parent).contains(x) <==> front.contains(x) && x.parent == parent);
            if front.contains(x) {
                let i = choose|i: int| 0 <= i < front.len() && front[i] == x;
                assert(nodes[i] == x);
            }
            if nodes.contains(x) {
                let i = choose|i: int| 0 <= i < nodes.len() && nodes[i] == x;
                if i < front.len() {
                    assert(front[i] == x);
                }
            }
            if x == nodes.last() {
                assert(nodes[nodes.len() - 1] == x);
            }
        }
    }
}

/// The child painted last carries the largest key, the one painted first the
/// smallest.
pub proof fn lemma_child_extremes(doc: Doc, parent: Option<NodeId>, last: bool)
    requires
        doc.well_formed(),
    ensures
        extreme_key(doc.content().nodes, parent, last) == (if crate::scene::children(doc.nodes@, parent).len()
            == 0 {
            None
        } else if last {
            Some(crate::scene::children(doc.nodes@, parent).last().index)
        } else {
            Some(crate::scene::children(doc.nodes@, parent).first().index)
        }),
{
    let map = doc.content().nodes;
    let layers = crate::scene::children(doc.nodes@, parent);
    lemma_children_members(doc.nodes@, parent);
    crate::scene::lemma_children_sorted(doc.nodes@, parent);
    assert forall|id: NodeId| #[trigger]
        map.dom().contains(id) && map[id].parent == parent implies layers.contains(map[id]) by {
        crate::keyed::lemma_keyed_contains(doc.nodes@, crate::operations::node_key(), id);
        let i = choose|i: int|
            0 <= i < doc.nodes@.len() && crate::operations::node_key()(#[trigger] doc.nodes@[i]) == id;
        crate::keyed::lemma_keyed_at(doc.nodes@, crate::operations::node_key(), i);
        assert(doc.nodes@.contains(map[id]));
    }
    if layers.len() == 0 {
        if exists|key: IndexKey| is_extreme(map, parent, last, key) {
            let key = choose|key: IndexKey| is_extreme(map, parent, last, key);
            let id = choose|id: NodeId| #[trigger]
                map.dom().contains(id) && map[id].parent == parent && map[id].index == key;
            assert(layers.contains(map[id]));
        }
    } else {
        let edge = if last { layers.last() } else { layers.first() };
        assert(layers.contains(edge)) by {
            if last {
                assert(layers[layers.len() - 1] == edge);
            } else {
                assert(layers[0] == edge);
            }
        }
        let i = choose|i: int| 0 <= i < doc.nodes@.len() && doc.nodes@[i] == edge;
        crate::keyed::lemma_keyed_at(doc.nodes@, crate::operations::node_key(), i);
        assert(map.dom().contains(edge.id) && map[edge.id] == edge);
        assert forall|id: NodeId| #[trigger]
            map.dom().contains(id) && map[id].parent == parent implies if last {
            map[id].index.rank <= edge.index.rank
        } else {
            edge.index.rank <= map[id].index.rank
        } by {
            let k = choose|k: int| 0 <= k < layers.len() && layers[k] == map[id];
            if last {
                if k < layers.len() - 1 {
                    assert(layers[k].index.rank <= layers[layers.len() - 1].index.rank);
                }
            } else if k > 0 {
                assert(layers[0].index.rank <= layers[k].index.rank);
            }
        }
        lemma_extreme_unique(map, parent, last, edge.index);
    }
}

/// A child is what its id leads to.
pub proof fn lemma_child_found(doc: Doc, parent: Option<NodeId>, i: int)
    requires
        doc.well_formed(),
        0 <= i < crate::scene::children(doc.nodes@, parent).len(),
    ensures
        crate::scene::find(doc.nodes@, crate::scene::children(doc.nodes@, parent)[i].id) == Some(
            crate::scene::children(doc.nodes@, parent)[i],
        ),
        crate::scene::children(doc.nodes@, parent)[i].parent == parent,
{
    let kids = crate::scene::children(doc.nodes@, parent);
    lemma_children_members(doc.nodes@, parent);
    assert(kids.contains(kids[i]));
    let at = choose|at: int| 0 <= at < doc.nodes@.len() && doc.nodes@[at] == kids[i];
    crate::keyed::lemma_keyed_at(doc.nodes@, crate::operations::node_key(), at);
    crate::operations::lemma_find_is_content(doc, kids[i].id);
}

proof fn lemma_insert_distinct(layers: Seq<CanvasNode>, node: CanvasNode)
    requires
        crate::keyed::distinct(layers, crate::operations::node_key()),
        forall|i: int| 0 <= i < layers.len() ==> (#[trigger] layers[i]).id != node.id,
    ensures
        crate::keyed::distinct(
            crate::scene::insert_sorted(layers, node),
            crate::operations::node_key(),
        ),
    decreases layers.len(),
{
    let key = crate::operations::node_key();
    let all = crate::scene::insert_sorted(layers, node);
    if layers.len() == 0 || layers.last().index.rank <= node.index.rank {
        assert forall|i: int, j: int| 0 <= i < j < all.len() implies key(#[trigger] all[i]) != key(
            #[trigger] all[j],
        ) by {
            if j < layers.len() {
                assert(key(layers[i]) != key(layers[j]));
            } else {
                assert(layers[i].id != node.id);
            }
        }
    } else {
        let front = layers.drop_last();
        let inner = crate::scene::insert_sorted(front, node);
        assert forall|i: int, j: int| 0 <= i < j < front.len() implies key(#[trigger] front[i])
            != key(#[trigger] front[j]) by {
            assert(key(layers[i]) != key(layers[j]));
        }
        lemma_insert_distinct(front, node);
        lemma_insert_members(front, node);
        assert forall|i: int, j: int| 0 <= i < j < all.len() implies key(#[trigger] all[i]) != key(
            #[trigger] all[j],
        ) by {
            if j < inner.len() {
                assert(key(inner[i]) != key(inner[j]));
            } else {
                assert(inner.contains(inner[i]));
                if inner[i] != node {
                    let k = choose|k: int| 0 <= k < front.len() && front[k] == inner[i];
                    assert(key(layers[k]) != key(layers[layers.len() - 1]));
                } else {
                    assert(layers[layers.len() - 1].id != node.id);
                }
            }
        }
    }
}

proof fn lemma_children_distinct_of(nodes: Seq<CanvasNode>, parent: Option<NodeId>)
    requires
        crate::keyed::distinct(nodes, crate::operations::node_key()),
    ensures
        crate::keyed::distinct(
            crate::scene::children(nodes, parent),
            crate::operations::node_key(),
        ),
    decreases nodes.len(),
{
    let key = crate::operations::node_key();
    if nodes.len() > 0 {
        let front = nodes.drop_last();
        assert forall|i: int, j: int| 0 <= i < j < front.len() implies key(#[trigger] front[i])
            != key(#[trigger] front[j]) by {
            assert(key(nodes[i]) != key(nodes[j]));
        }
        lemma_children_distinct_of(front, parent);
        if nodes.last().parent == parent {
            let kids = crate::scene::children(front, parent);
            lemma_children_members(front, parent);
            assert forall|i: int| 0 <= i < kids.len() implies (#[trigger] kids[i]).id
                != nodes.last().id by {
                assert(kids.contains(kids[i]));
                let k = choose|k: int| 0 <= k < front.len() && front[k] == kids[i];
                assert(key(nodes[k]) != key(nodes[nodes.len() - 1]));
            }
            lemma_insert_distinct(kids, nodes.last());
        }
    }
}

/// No child is listed twice.
pub proof fn lemma_children_distinct(doc: Doc, parent: Option<NodeId>)
    requires
        doc.well_formed(),
    ensures
        forall|i: int, j: int|
            0 <= i < j < crate::scene::children(doc.nodes@, parent).len() ==> (
            #[trigger] crate::scene::children(doc.nodes@, parent)[i]).id != (
            #[trigger] crate::scene::children(doc.nodes@, parent)[j]).id,
{
    let kids = crate::scene::children(doc.nodes@, parent);
    lemma_children_distinct_of(doc.nodes@, parent);
    assert forall|i: int, j: int| 0 <= i < j < kids.len() implies (#[trigger] kids[i]).id != (
    #[trigger] kids[j]).id by {
        let key = crate::operations::node_key();
        assert(key(kids[i]) != key(kids[j]));
    }
}

/// How many layers name a parent.
pub open spec fn children_of_content(
    content: crate::operations::Content,
    parent: NodeId,
) -> nat {
    Set::new(
        |id: NodeId|
            content.nodes.dom().contains(id) && content.nodes[id].parent == Some(parent),
    ).len()
}

/// Listing the children of a parent lists each layer that names it once.
pub proof fn lemma_children_counted(doc: Doc, parent: NodeId)
    requires
        doc.well_formed(),
    ensures
        crate::scene::children(doc.nodes@, Some(parent)).len() == children_of_content(
            doc.content(),
            parent,
        ),
{
    let kids = crate::scene::children(doc.nodes@, Some(parent));
    let ids = crate::scene::ids_of(kids);
    let content = doc.content();
    let wanted = Set::new(
        |id: NodeId|
            content.nodes.dom().contains(id) && content.nodes[id].parent == Some(parent),
    );
    lemma_children_distinct(doc, Some(parent));
    assert forall|i: int, j: int| 0 <= i < ids.len() && 0 <= j < ids.len() && i != j implies ids[i]
        != ids[j] by {
        if i < j {
            assert(kids[i].id != kids[j].id);
        } else {
            assert(kids[j].id != kids[i].id);
        }
    }
    ids.unique_seq_to_set();
    assert forall|id: NodeId| ids.to_set().contains(id) <==> wanted.contains(id) by {
        if ids.contains(id) {
            let i = choose|i: int| 0 <= i < ids.len() && ids[i] == id;
            lemma_child_found(doc, Some(parent), i);
            crate::operations::lemma_find_is_content(doc, id);
        }
        if wanted.contains(id) {
            crate::operations::lemma_find_is_content(doc, id);
            let node = content.nodes[id];
            crate::scene::lemma_find_has_id(doc.nodes@, id);
            lemma_children_members(doc.nodes@, Some(parent));
            assert(doc.nodes@.contains(node));
            assert(kids.contains(node));
            let i = choose|i: int| 0 <= i < kids.len() && kids[i] == node;
            assert(ids[i] == id);
        }
    }
    assert(ids.to_set() =~= wanted);
}

} // verus!
