//! Walking the layer tree: lookup, ancestors, children in paint order, and
//! whole subtrees.

use vstd::prelude::*;

use crate::document::{CanvasNode, Doc, IndexKey};
use crate::ids::NodeId;

verus! {

/// The layer with an id.
pub open spec fn find(nodes: Seq<CanvasNode>, id: NodeId) -> Option<CanvasNode>
    decreases nodes.len(),
{
    if nodes.len() == 0 {
        None
    } else if nodes[0].id == id {
        Some(nodes[0])
    } else {
        find(nodes.drop_first(), id)
    }
}

/// The layers above one, nearest first. The chain is as long as the number of
/// layers at most.
pub open spec fn ancestors_within(nodes: Seq<CanvasNode>, id: NodeId, fuel: nat) -> Seq<CanvasNode>
    decreases fuel,
{
    if fuel == 0 {
        Seq::empty()
    } else {
        match find(nodes, id) {
            None => Seq::empty(),
            Some(node) => match node.parent {
                None => Seq::empty(),
                Some(parent) => match find(nodes, parent) {
                    None => Seq::empty(),
                    Some(above) => seq![above] + ancestors_within(
                        nodes,
                        parent,
                        (fuel - 1) as nat,
                    ),
                },
            },
        }
    }
}

pub open spec fn ancestors(nodes: Seq<CanvasNode>, id: NodeId) -> Seq<CanvasNode> {
    ancestors_within(nodes, id, nodes.len())
}

/// `above` stands somewhere above `id`.
pub open spec fn is_above(nodes: Seq<CanvasNode>, above: NodeId, id: NodeId) -> bool {
    exists|i: int|
        0 <= i < ancestors(nodes, id).len() && (#[trigger] ancestors(nodes, id)[i]).id == above
}

/// Some layer above `id` is locked.
pub open spec fn under_lock(nodes: Seq<CanvasNode>, id: NodeId) -> bool {
    exists|i: int|
        0 <= i < ancestors(nodes, id).len() && (#[trigger] ancestors(nodes, id)[i]).flags.locked
}

/// Puts a layer behind all layers whose key is not larger.
pub open spec fn insert_sorted(layers: Seq<CanvasNode>, node: CanvasNode) -> Seq<CanvasNode>
    decreases layers.len(),
{
    if layers.len() == 0 || layers.last().index.rank <= node.index.rank {
        layers.push(node)
    } else {
        insert_sorted(layers.drop_last(), node).push(layers.last())
    }
}

/// The layers below a parent, or at the top, in paint order.
pub open spec fn children(nodes: Seq<CanvasNode>, parent: Option<NodeId>) -> Seq<CanvasNode>
    decreases nodes.len(),
{
    if nodes.len() == 0 {
        Seq::empty()
    } else if nodes.last().parent == parent {
        insert_sorted(children(nodes.drop_last(), parent), nodes.last())
    } else {
        children(nodes.drop_last(), parent)
    }
}

pub open spec fn ids_of(layers: Seq<CanvasNode>) -> Seq<NodeId> {
    layers.map_values(|node: CanvasNode| node.id)
}

/// A layer and everything below it, parents first and siblings in paint order,
/// down to a depth.
pub open spec fn subtree(nodes: Seq<CanvasNode>, id: NodeId, depth: nat) -> Seq<NodeId>
    decreases depth, 0nat,
{
    if depth == 0 || find(nodes, id) is None {
        Seq::empty()
    } else {
        seq![id] + forest(nodes, ids_of(children(nodes, Some(id))), (depth - 1) as nat)
    }
}

/// The subtrees of a list of layers, one after the other.
pub open spec fn forest(nodes: Seq<CanvasNode>, roots: Seq<NodeId>, depth: nat) -> Seq<NodeId>
    decreases depth, roots.len() + 1,
{
    if roots.len() == 0 {
        Seq::empty()
    } else {
        forest(nodes, roots.drop_last(), depth) + subtree(nodes, roots.last(), depth)
    }
}

pub open spec fn descendants(nodes: Seq<CanvasNode>, id: NodeId) -> Seq<NodeId> {
    subtree(nodes, id, nodes.len())
}

/// Every layer of the document, in paint order.
pub open spec fn all_layers(nodes: Seq<CanvasNode>) -> Seq<NodeId> {
    forest(nodes, ids_of(children(nodes, None)), nodes.len())
}

/// The key behind the last child.
pub open spec fn next_index(nodes: Seq<CanvasNode>, parent: Option<NodeId>) -> IndexKey {
    let layers = children(nodes, parent);
    if layers.len() == 0 {
        IndexKey::initial()
    } else {
        IndexKey::after(layers.last().index)
    }
}

pub proof fn lemma_find_has_id(nodes: Seq<CanvasNode>, id: NodeId)
    ensures
        find(nodes, id) matches Some(node) ==> node.id == id && nodes.contains(node),
    decreases nodes.len(),
{
    if nodes.len() > 0 {
        if nodes[0].id == id {
            assert(nodes.contains(nodes[0]));
        } else {
            lemma_find_has_id(nodes.drop_first(), id);
            if let Some(node) = find(nodes, id) {
                let i = choose|i: int| 0 <= i < nodes.drop_first().len() && nodes.drop_first()[i] == node;
                assert(nodes[i + 1] == node);
            }
        }
    }
}

pub proof fn lemma_find_none(nodes: Seq<CanvasNode>, id: NodeId)
    ensures
        find(nodes, id) is None <==> forall|i: int| 0 <= i < nodes.len() ==> (#[trigger] nodes[i]).id != id,
    decreases nodes.len(),
{
    if nodes.len() > 0 {
        let rest = nodes.drop_first();
        lemma_find_none(rest, id);
        if find(nodes, id) is None {
            assert forall|i: int| 0 <= i < nodes.len() implies (#[trigger] nodes[i]).id != id by {
                if i > 0 {
                    assert(rest[i - 1].id != id);
                }
            }
        } else if forall|i: int| 0 <= i < nodes.len() ==> (#[trigger] nodes[i]).id != id {
            assert(nodes[0].id != id);
            assert forall|i: int| 0 <= i < rest.len() implies (#[trigger] rest[i]).id != id by {
                assert(nodes[i + 1].id != id);
            }
        }
    }
}

/// A layer found at a place in a list without earlier ones of that id.
proof fn lemma_find_first(nodes: Seq<CanvasNode>, id: NodeId, i: int)
    requires
        0 <= i < nodes.len(),
        nodes[i].id == id,
        forall|k: int| 0 <= k < i ==> (#[trigger] nodes[k]).id != id,
    ensures
        find(nodes, id) == Some(nodes[i]),
    decreases i,
{
    if i > 0 {
        assert(nodes[0].id != id);
        let rest = nodes.drop_first();
        assert forall|k: int| 0 <= k < i - 1 implies (#[trigger] rest[k]).id != id by {
            assert(nodes[k + 1].id != id);
        }
        lemma_find_first(rest, id, i - 1);
    }
}

proof fn lemma_insert_at(layers: Seq<CanvasNode>, node: CanvasNode, at: int)
    requires
        0 <= at <= layers.len(),
        forall|j: int| at <= j < layers.len() ==> node.index.rank < (#[trigger] layers[j]).index.rank,
        at > 0 ==> layers[at - 1].index.rank <= node.index.rank,
    ensures
        insert_sorted(layers, node) == layers.insert(at, node),
    decreases layers.len(),
{
    if at == layers.len() {
        assert(layers.insert(at, node) =~= layers.push(node));
    } else {
        let front = layers.drop_last();
        assert(node.index.rank < layers[layers.len() - 1].index.rank);
        lemma_insert_at(front, node, at);
        assert(front.insert(at, node).push(layers.last()) =~= layers.insert(at, node));
    }
}

impl Doc {
    /// The place of a layer in the list of layers.
    pub fn place_of(&self, id: NodeId) -> (place: Option<usize>)
        ensures
            match place {
                Some(i) => i < self.nodes@.len() && self.nodes@[i as int].id == id
                    && find(self.nodes@, id) == Some(self.nodes@[i as int])
                    && forall|k: int| 0 <= k < i ==> (#[trigger] self.nodes@[k]).id != id,
                None => find(self.nodes@, id) is None,
            },
    {
        let mut i: usize = 0;
        while i < self.nodes.len()
            invariant
                i <= self.nodes@.len(),
                forall|k: int| 0 <= k < i ==> (#[trigger] self.nodes@[k]).id != id,
            decreases self.nodes@.len() - i,
        {
            if self.nodes[i].id == id {
                proof {
                    lemma_find_first(self.nodes@, id, i as int);
                }
                return Some(i);
            }
            i = i + 1;
        }
        proof {
            lemma_find_none(self.nodes@, id);
        }
        None
    }

    /// The layer with an id.
    pub fn get(&self, id: NodeId) -> (node: Option<&CanvasNode>)
        ensures
            match node {
                Some(node) => find(self.nodes@, id) == Some(*node) && node.id == id,
                None => find(self.nodes@, id) is None,
            },
    {
        match self.place_of(id) {
            Some(i) => Some(&self.nodes[i]),
            None => None,
        }
    }

    pub fn contains(&self, id: NodeId) -> (found: bool)
        ensures
            found == (find(self.nodes@, id) is Some),
    {
        self.place_of(id).is_some()
    }

    /// Ids of the layers above one, nearest first.
    pub fn ancestors_of(&self, id: NodeId) -> (ids: Vec<NodeId>)
        ensures
            ids@ == ids_of(ancestors(self.nodes@, id)),
    {
        let mut ids: Vec<NodeId> = Vec::new();
        let mut cursor = id;
        let mut fuel: usize = self.nodes.len();
        let ghost total = ids_of(ancestors(self.nodes@, id));
        assert(ids@ + total =~= total);
        while fuel > 0
            invariant
                total == ids_of(ancestors(self.nodes@, id)),
                total == ids@ + ids_of(ancestors_within(self.nodes@, cursor, fuel as nat)),
            decreases fuel,
        {
            let ghost rest = ancestors_within(self.nodes@, cursor, fuel as nat);
            let parent = match self.get(cursor) {
                None => None,
                Some(node) => node.parent,
            };
            let above = match parent {
                None => None,
                Some(parent) => match self.get(parent) {
                    None => None,
                    Some(node) => Some(node.id),
                },
            };
            match above {
                None => {
                    assert(rest =~= Seq::empty());
                    assert(ids@ + ids_of(rest) =~= ids@);
                    return ids;
                },
                Some(above) => {
                    let ghost tail = ancestors_within(self.nodes@, above, (fuel - 1) as nat);
                    assert(ids_of(rest) =~= seq![above] + ids_of(tail));
                    assert(ids@ + ids_of(rest) =~= ids@.push(above) + ids_of(tail));
                    ids.push(above);
                    cursor = above;
                    fuel = fuel - 1;
                },
            }
        }
        assert(ids@ + Seq::<NodeId>::empty() =~= ids@);
        assert(ids_of(ancestors_within(self.nodes@, cursor, 0)) =~= Seq::empty());
        ids
    }

    /// Whether one layer stands somewhere above another.
    pub fn is_ancestor(&self, above: NodeId, id: NodeId) -> (r: bool)
        ensures
            r == is_above(self.nodes@, above, id),
    {
        let ids = self.ancestors_of(id);
        let ghost layers = ancestors(self.nodes@, id);
        let found = crate::ids::holds(&ids, above);
        proof {
            if found {
                let i = choose|i: int| 0 <= i < ids@.len() && ids@[i] == above;
                assert(layers[i].id == above);
            }
            if is_above(self.nodes@, above, id) {
                let i = choose|i: int| 0 <= i < layers.len() && (#[trigger] layers[i]).id == above;
                assert(ids@[i] == above);
            }
        }
        found
    }

    /// Whether some layer above one is locked.
    pub fn has_locked_ancestor(&self, id: NodeId) -> (r: bool)
        ensures
            r == under_lock(self.nodes@, id),
    {
        let ids = self.ancestors_of(id);
        let ghost layers = ancestors(self.nodes@, id);
        proof {
            lemma_ancestors_found(self.nodes@, id, self.nodes@.len());
        }
        let mut i: usize = 0;
        while i < ids.len()
            invariant
                i <= ids@.len(),
                layers == ancestors(self.nodes@, id),
                ids@ == ids_of(layers),
                forall|k: int|
                    0 <= k < layers.len() ==> find(self.nodes@, (#[trigger] layers[k]).id) == Some(
                        layers[k],
                    ),
                forall|k: int| 0 <= k < i ==> !(#[trigger] layers[k]).flags.locked,
            decreases ids@.len() - i,
        {
            assert(ids@[i as int] == layers[i as int].id);
            match self.get(ids[i]) {
                Some(node) => {
                    if node.flags.locked {
                        assert(layers[i as int].flags.locked);
                        return true;
                    }
                },
                None => {},
            }
            i = i + 1;
        }
        false
    }

    /// Places of the children of a parent, in paint order.
    fn child_places(&self, parent: Option<NodeId>) -> (places: Vec<usize>)
        ensures
            places@.len() == children(self.nodes@, parent).len(),
            forall|k: int|
                0 <= k < places@.len() ==> (#[trigger] places@[k]) < self.nodes@.len()
                    && self.nodes@[places@[k] as int] == children(self.nodes@, parent)[k],
    {
        let mut places: Vec<usize> = Vec::new();
        let mut i: usize = 0;
        while i < self.nodes.len()
            invariant
                i <= self.nodes@.len(),
                places@.len() == children(self.nodes@.take(i as int), parent).len(),
                forall|k: int|
                    0 <= k < places@.len() ==> (#[trigger] places@[k]) < self.nodes@.len()
                        && self.nodes@[places@[k] as int] == children(
                        self.nodes@.take(i as int),
                        parent,
                    )[k],
            decreases self.nodes@.len() - i,
        {
            let ghost before = children(self.nodes@.take(i as int), parent);
            let ghost node = self.nodes@[i as int];
            proof {
                assert(self.nodes@.take(i + 1).drop_last() =~= self.nodes@.take(i as int));
                assert(self.nodes@.take(i + 1).last() == node);
            }
            if self.nodes[i].parent == parent {
                let mut at: usize = places.len();
                while at > 0 && self.nodes[i].index.rank < self.nodes[places[at - 1]].index.rank
                    invariant
                        i < self.nodes@.len(),
                        at <= places@.len(),
                        node == self.nodes@[i as int],
                        places@.len() == before.len(),
                        forall|k: int|
                            0 <= k < places@.len() ==> (#[trigger] places@[k]) < self.nodes@.len()
                                && self.nodes@[places@[k] as int] == before[k],
                        forall|j: int|
                            at <= j < before.len() ==> node.index.rank < (
                            #[trigger] before[j]).index.rank,
                    decreases at,
                {
                    at = at - 1;
                    assert(self.nodes@[places@[at as int] as int] == before[at as int]);
                }
                proof {
                    if at > 0 {
                        assert(self.nodes@[places@[at - 1] as int] == before[at - 1]);
                    }
                    lemma_insert_at(before, node, at as int);
                }
                let ghost old_places = places@;
                places.insert(at, i);
                assert forall|k: int| 0 <= k < places@.len() implies (#[trigger] places@[k])
                    < self.nodes@.len() && self.nodes@[places@[k] as int] == before.insert(
                    at as int,
                    node,
                )[k] by {
                    if k < at {
                        assert(places@[k] == old_places[k]);
                    } else if k > at {
                        assert(places@[k] == old_places[k - 1]);
                    }
                }
            }
            i = i + 1;
        }
        assert(self.nodes@.take(self.nodes@.len() as int) =~= self.nodes@);
        places
    }

    /// Ids of the children of a parent, or of the layers at the top, in paint
    /// order.
    pub fn children_of(&self, parent: Option<NodeId>) -> (ids: Vec<NodeId>)
        ensures
            ids@ == ids_of(children(self.nodes@, parent)),
    {
        let places = self.child_places(parent);
        let ghost layers = children(self.nodes@, parent);
        let mut ids: Vec<NodeId> = Vec::new();
        let mut i: usize = 0;
        while i < places.len()
            invariant
                i <= places@.len(),
                layers == children(self.nodes@, parent),
                places@.len() == layers.len(),
                forall|k: int|
                    0 <= k < places@.len() ==> (#[trigger] places@[k]) < self.nodes@.len()
                        && self.nodes@[places@[k] as int] == layers[k],
                ids@ == ids_of(layers).take(i as int),
            decreases places@.len() - i,
        {
            let place: usize = places[i];
            ids.push(self.nodes[place].id);
            assert(ids_of(layers).take(i + 1) =~= ids_of(layers).take(i as int).push(
                layers[i as int].id,
            ));
            i = i + 1;
        }
        assert(ids_of(layers).take(layers.len() as int) =~= ids_of(layers));
        ids
    }

    /// The key of the child painted last, or first.
    pub fn extreme_index(&self, parent: Option<NodeId>, last: bool) -> (key: Option<IndexKey>)
        ensures
            key == (if children(self.nodes@, parent).len() == 0 {
                None
            } else if last {
                Some(children(self.nodes@, parent).last().index)
            } else {
                Some(children(self.nodes@, parent).first().index)
            }),
    {
        let places = self.child_places(parent);
        if places.len() == 0 {
            None
        } else if last {
            let place: usize = places[places.len() - 1];
            Some(self.nodes[place].index)
        } else {
            let place: usize = places[0];
            Some(self.nodes[place].index)
        }
    }

    /// The key for a new child behind all others.
    pub fn next_child_index(&self, parent: Option<NodeId>) -> (key: IndexKey)
        ensures
            key == next_index(self.nodes@, parent),
    {
        match self.extreme_index(parent, true) {
            None => IndexKey::initial(),
            Some(key) => IndexKey::after(key),
        }
    }

    fn collect_subtree(&self, id: NodeId, depth: usize, out: &mut Vec<NodeId>)
        ensures
            final(out)@ == old(out)@ + subtree(self.nodes@, id, depth as nat),
        decreases depth, 0nat,
    {
        let ghost before = out@;
        if depth == 0 || !self.contains(id) {
            assert(out@ + Seq::<NodeId>::empty() =~= out@);
            return;
        }
        out.push(id);
        let kids = self.children_of(Some(id));
        self.collect_forest(&kids, depth - 1, out);
        assert(out@ =~= before + subtree(self.nodes@, id, depth as nat));
    }

    fn collect_forest(&self, roots: &Vec<NodeId>, depth: usize, out: &mut Vec<NodeId>)
        ensures
            final(out)@ == old(out)@ + forest(self.nodes@, roots@, depth as nat),
        decreases depth, 1nat,
    {
        let ghost before = out@;
        let mut i: usize = 0;
        assert(roots@.take(0) =~= Seq::<NodeId>::empty());
        assert(out@ + Seq::<NodeId>::empty() =~= out@);
        while i < roots.len()
            invariant
                i <= roots@.len(),
                out@ == before + forest(self.nodes@, roots@.take(i as int), depth as nat),
            decreases roots@.len() - i,
        {
            let ghost so_far = out@;
            self.collect_subtree(roots[i], depth, out);
            proof {
                assert(roots@.take(i + 1).drop_last() =~= roots@.take(i as int));
                assert(roots@.take(i + 1).last() == roots@[i as int]);
                assert(out@ =~= before + forest(self.nodes@, roots@.take(i + 1), depth as nat));
            }
            i = i + 1;
        }
        assert(roots@.take(roots@.len() as int) =~= roots@);
    }

    /// A layer and everything below it, parents first.
    pub fn descendants_of(&self, id: NodeId) -> (ids: Vec<NodeId>)
        ensures
            ids@ == descendants(self.nodes@, id),
    {
        let mut ids: Vec<NodeId> = Vec::new();
        self.collect_subtree(id, self.nodes.len(), &mut ids);
        assert(Seq::<NodeId>::empty() + descendants(self.nodes@, id) =~= descendants(
            self.nodes@,
            id,
        ));
        ids
    }

    /// The subtrees of several layers, one after the other.
    pub fn descendants_of_all(&self, roots: &Vec<NodeId>) -> (ids: Vec<NodeId>)
        ensures
            ids@ == forest(self.nodes@, roots@, self.nodes@.len()),
    {
        let mut ids: Vec<NodeId> = Vec::new();
        self.collect_forest(roots, self.nodes.len(), &mut ids);
        assert(ids@ =~= forest(self.nodes@, roots@, self.nodes@.len()));
        ids
    }

    /// Every layer, in paint order.
    pub fn all_layers(&self) -> (ids: Vec<NodeId>)
        ensures
            ids@ == all_layers(self.nodes@),
    {
        let roots = self.children_of(None);
        self.descendants_of_all(&roots)
    }
}

/// Layers above a layer are layers of the document.
pub proof fn lemma_ancestors_found(nodes: Seq<CanvasNode>, id: NodeId, fuel: nat)
    ensures
        forall|k: int|
            0 <= k < ancestors_within(nodes, id, fuel).len() ==> find(
                nodes,
                (#[trigger] ancestors_within(nodes, id, fuel)[k]).id,
            ) == Some(ancestors_within(nodes, id, fuel)[k]),
    decreases fuel,
{
    if fuel > 0 {
        if let Some(node) = find(nodes, id) {
            if let Some(parent) = node.parent {
                if let Some(above) = find(nodes, parent) {
                    lemma_find_has_id(nodes, parent);
                    let tail = ancestors_within(nodes, parent, (fuel - 1) as nat);
                    lemma_ancestors_found(nodes, parent, (fuel - 1) as nat);
                    let all = ancestors_within(nodes, id, fuel);
                    assert forall|k: int| 0 <= k < all.len() implies find(
                        nodes,
                        (#[trigger] all[k]).id,
                    ) == Some(all[k]) by {
                        if k > 0 {
                            assert(all[k] == tail[k - 1]);
                        }
                    }
                }
            }
        }
    }
}

/// Children stand in the order of their keys.
pub proof fn lemma_children_sorted(nodes: Seq<CanvasNode>, parent: Option<NodeId>)
    ensures
        forall|i: int, j: int|
            0 <= i < j < children(nodes, parent).len() ==> (#[trigger] children(
                nodes,
                parent,
            )[i]).index.rank <= (#[trigger] children(nodes, parent)[j]).index.rank,
    decreases nodes.len(),
{
    if nodes.len() > 0 {
        lemma_children_sorted(nodes.drop_last(), parent);
        if nodes.last().parent == parent {
            lemma_insert_keeps_order(children(nodes.drop_last(), parent), nodes.last());
        }
    }
}

proof fn lemma_insert_keeps_order(layers: Seq<CanvasNode>, node: CanvasNode)
    requires
        forall|i: int, j: int|
            0 <= i < j < layers.len() ==> (#[trigger] layers[i]).index.rank <= (
            #[trigger] layers[j]).index.rank,
    ensures
        forall|i: int, j: int|
            0 <= i < j < insert_sorted(layers, node).len() ==> (#[trigger] insert_sorted(
                layers,
                node,
            )[i]).index.rank <= (#[trigger] insert_sorted(layers, node)[j]).index.rank,
        insert_sorted(layers, node).len() == layers.len() + 1,
        forall|i: int|
            0 <= i < insert_sorted(layers, node).len() ==> (#[trigger] insert_sorted(
                layers,
                node,
            )[i]) == node || layers.contains(insert_sorted(layers, node)[i]),
    decreases layers.len(),
{
    let all = insert_sorted(layers, node);
    if layers.len() > 0 && node.index.rank < layers.last().index.rank {
        let front = layers.drop_last();
        lemma_insert_keeps_order(front, node);
        let inner = insert_sorted(front, node);
        assert forall|i: int| 0 <= i < all.len() implies (#[trigger] all[i]) == node
            || layers.contains(all[i]) by {
            if i < inner.len() {
                assert(all[i] == inner[i]);
                if inner[i] != node {
                    let k = choose|k: int| 0 <= k < front.len() && front[k] == inner[i];
                    assert(layers[k] == inner[i]);
                }
            } else {
                assert(all[i] == layers[layers.len() - 1]);
            }
        }
        assert forall|i: int, j: int| 0 <= i < j < all.len() implies (#[trigger] all[i]).index.rank
            <= (#[trigger] all[j]).index.rank by {
            if j == inner.len() {
                assert(all[i] == inner[i]);
                if inner[i] != node {
                    let k = choose|k: int| 0 <= k < front.len() && front[k] == inner[i];
                    assert(layers[k].index.rank <= layers[layers.len() - 1].index.rank);
                }
            } else {
                assert(all[i] == inner[i] && all[j] == inner[j]);
            }
        }
    } else {
        assert forall|i: int| 0 <= i < all.len() implies (#[trigger] all[i]) == node
            || layers.contains(all[i]) by {
            if i < layers.len() {
                assert(all[i] == layers[i]);
            }
        }
        assert forall|i: int, j: int| 0 <= i < j < all.len() implies (#[trigger] all[i]).index.rank
            <= (#[trigger] all[j]).index.rank by {
            assert(all[i] == layers[i]);
            if j < layers.len() {
                assert(all[j] == layers[j]);
            } else {
                assert(layers[i].index.rank <= layers.last().index.rank);
            }
        }
    }
}

} // verus!
