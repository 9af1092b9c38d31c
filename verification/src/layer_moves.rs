//! Layer commands that change where a layer stands: moving to a page, and
//! bringing to the front or sending to the back.

use vstd::prelude::*;

use crate::document::{CanvasNode, Doc, IndexKey, Transform};
use crate::ids::{holds, NodeId};
use crate::layer_context_ops::{editable, targets};
use crate::layer_errors::LayerError;
use crate::operations::Operation;

verus! {

// ---------------------------------------------------------------------------
// Moving to a page
// ---------------------------------------------------------------------------

/// The operations that move one layer to the end of a page.
pub open spec fn move_pair(
    content: crate::operations::Content,
    id: NodeId,
    page: NodeId,
    transform: Transform,
) -> Seq<Operation> {
    let node = content.nodes[id];
    seq![
        Operation::Reparent {
            id: id,
            old_parent: node.parent,
            old_index: node.index,
            new_parent: Some(page),
            new_index: crate::content_walk::next_key(content.nodes, Some(page)),
        },
        Operation::SetTransform { id: id, old: node.transform, new: transform },
    ]
}

/// The layer stands above the page.
pub open spec fn holds_page(
    nodes: Map<NodeId, CanvasNode>,
    page: NodeId,
    id: NodeId,
) -> bool {
    exists|i: int|
        0 <= i < crate::content_walk::above(nodes, page).len() && (
        #[trigger] crate::content_walk::above(nodes, page)[i]).id == id
}

/// Moving layers to a page, one after the other: each is judged in the document
/// as the ones before it have left it. `moved` holds the transforms that keep
/// every layer where it shows, where the layer has one.
pub open spec fn moved_layers(
    content: crate::operations::Content,
    pages: Seq<NodeId>,
    page: NodeId,
    page_known: bool,
    ids: Seq<NodeId>,
    moved: Seq<Option<Transform>>,
) -> Result<Seq<Operation>, LayerError>
    decreases ids.len(),
{
    if ids.len() == 0 {
        Ok(Seq::empty())
    } else {
        let id = ids[0];
        if !crate::content_walk::may_edit(content.nodes, pages, id) {
            Err(LayerError::SelectedLocked)
        } else if holds_page(content.nodes, page, id) {
            Err(LayerError::IntoDescendant)
        } else if !page_known {
            Err(LayerError::NoPageTransform)
        } else if moved.len() == 0 || moved[0] is None {
            Err(LayerError::NoLayerTransform)
        } else if !(moved[0]->0).finite() {
            Err(LayerError::SingularPage)
        } else {
            let pair = move_pair(content, id, page, moved[0]->0);
            match moved_layers(
                crate::operations::all_applied(content, pair),
                pages,
                page,
                page_known,
                ids.drop_first(),
                moved.drop_first(),
            ) {
                Ok(rest) => Ok(pair + rest),
                Err(error) => Err(error),
            }
        }
    }
}

/// What the move to a page does.
pub open spec fn move_outcome(
    doc: Doc,
    id: NodeId,
    page: NodeId,
    selection_roots: Seq<NodeId>,
    page_known: bool,
    moved: Seq<Option<Transform>>,
) -> Result<Seq<Operation>, LayerError> {
    if !doc.pages@.contains(page) {
        Err(LayerError::PageGone)
    } else {
        moved_layers(
            doc.content(),
            doc.pages@,
            page,
            page_known,
            crate::layer_context_ops::target_ids(doc, id, selection_roots),
            moved,
        )
    }
}

/// The result as a list of operations.
pub open spec fn outcome_of(r: Result<Vec<Operation>, LayerError>) -> Result<
    Seq<Operation>,
    LayerError,
> {
    match r {
        Ok(operations) => Ok(operations@),
        Err(error) => Err(error),
    }
}

proof fn lemma_pair_applied(
    content: crate::operations::Content,
    id: NodeId,
    page: NodeId,
    transform: Transform,
)
    requires
        crate::operations::filed(content),
        content.nodes.dom().contains(id),
    ensures
        crate::operations::reversible(content, move_pair(content, id, page, transform)),
        crate::operations::all_applied(content, move_pair(content, id, page, transform))
            == crate::operations::applied(
            crate::operations::applied(content, move_pair(content, id, page, transform)[0]),
            move_pair(content, id, page, transform)[1],
        ),
{
    let pair = move_pair(content, id, page, transform);
    let first = pair.drop_last();
    assert(first =~= seq![pair[0]]);
    assert(first.drop_last() =~= Seq::<Operation>::empty());
    assert(crate::operations::all_applied(content, Seq::<Operation>::empty()) == content);
    assert(crate::operations::reversible(content, Seq::<Operation>::empty()));
    assert(first.last() == pair[0]);
    assert(crate::operations::all_applied(content, first) == crate::operations::applied(
        content,
        pair[0],
    ));
    assert(crate::operations::reversible(content, first));
    assert(content.nodes[id].id == id);
    assert(pair.last() == pair[1]);
}

/// Moves the targets to the end of a page, where they keep showing where they
/// were.
pub fn move_to_page(
    doc: &Doc,
    id: NodeId,
    page: NodeId,
    selection_roots: &Vec<NodeId>,
    page_known: bool,
    moved: &Vec<Option<Transform>>,
) -> (r: Result<Vec<Operation>, LayerError>)
    requires
        doc.well_formed(),
    ensures
        outcome_of(r) == move_outcome(*doc, id, page, selection_roots@, page_known, moved@),
{
    if !holds(&doc.pages, page) {
        return Err(LayerError::PageGone);
    }
    let ids = targets(doc, id, selection_roots);
    let mut scratch = doc.copy();
    let mut operations: Vec<Operation> = Vec::new();
    let ghost goal = move_outcome(*doc, id, page, selection_roots@, page_known, moved@);
    let mut i: usize = 0;
    proof {
        crate::layer_context_ops::lemma_same_content(scratch, *doc);
        assert(ids@.skip(0) =~= ids@);
        assert(moved@.skip(0) =~= moved@);
        if let Ok(rest) = goal {
            assert(operations@ + rest =~= rest);
        }
    }
    while i < ids.len()
        invariant
            i <= ids@.len(),
            scratch.well_formed(),
            scratch.pages@ == doc.pages@,
            goal == move_outcome(*doc, id, page, selection_roots@, page_known, moved@),
            goal == (match moved_layers(
                scratch.content(),
                doc.pages@,
                page,
                page_known,
                ids@.skip(i as int),
                if i <= moved@.len() { moved@.skip(i as int) } else { Seq::empty() },
            ) {
                Ok(rest) => Ok::<Seq<Operation>, LayerError>(operations@ + rest),
                Err(error) => Err::<Seq<Operation>, LayerError>(error),
            }),
        decreases ids@.len() - i,
    {
        let target = ids[i];
        let ghost left = ids@.skip(i as int);
        let ghost facts = if i <= moved@.len() {
            moved@.skip(i as int)
        } else {
            Seq::empty()
        };
        proof {
            assert(left[0] == target);
            assert(left.drop_first() =~= ids@.skip(i + 1));
            if i < moved@.len() {
                assert(facts[0] == moved@[i as int]);
                assert(facts.drop_first() =~= moved@.skip(i + 1));
            }
            crate::layer_context_ops::lemma_can_edit_content(scratch, target);
            crate::operations::lemma_find_is_content(scratch, target);
            crate::content_walk::lemma_above(scratch, page);
            crate::operations::lemma_doc_filed(scratch);
            crate::content_walk::lemma_child_extremes(scratch, Some(page), true);
        }
        if !editable(&scratch, target) {
            return Err(LayerError::SelectedLocked);
        }
        if scratch.is_ancestor(target, page) {
            return Err(LayerError::IntoDescendant);
        }
        if !page_known {
            return Err(LayerError::NoPageTransform);
        }
        let transform = if i < moved.len() {
            moved[i]
        } else {
            None
        };
        match transform {
            None => {
                return Err(LayerError::NoLayerTransform);
            },
            Some(transform) => {
                if !transform.is_finite() {
                    return Err(LayerError::SingularPage);
                }
                let new_index = scratch.next_child_index(Some(page));
                let (parent, index, old) = match scratch.get(target) {
                    Some(node) => (node.parent, node.index, node.transform),
                    None => {
                        return Err(LayerError::MissingLayer);
                    },
                };
                let reparent = Operation::Reparent {
                    id: target,
                    old_parent: parent,
                    old_index: index,
                    new_parent: Some(page),
                    new_index,
                };
                let place = Operation::SetTransform { id: target, old, new: transform };
                let ghost content = scratch.content();
                let ghost pair = move_pair(content, target, page, transform);
                proof {
                    assert(pair[0] == reparent);
                    assert(pair[1] == place);
                    lemma_pair_applied(content, target, page, transform);
                    assert(crate::operations::applied(content, reparent).nodes.dom().contains(
                        target,
                    ));
                }
                let first = scratch.apply(&reparent);
                let second = scratch.apply(&place);
                assert(first is Ok && second is Ok);
                let ghost before = operations@;
                operations.push(reparent);
                operations.push(place);
                proof {
                    assert(operations@ =~= before + pair);
                    assert(scratch.content() == crate::operations::all_applied(content, pair));
                    let rest = moved_layers(
                        scratch.content(),
                        doc.pages@,
                        page,
                        page_known,
                        left.drop_first(),
                        facts.drop_first(),
                    );
                    if let Ok(tail) = rest {
                        assert(before + (pair + tail) =~= operations@ + tail);
                    }
                }
            },
        }
        i = i + 1;
    }
    proof {
        assert(ids@.skip(i as int).len() == 0);
        assert(operations@ + Seq::<Operation>::empty() =~= operations@);
    }
    Ok(operations)
}

/// A move to a page can be taken back.
pub proof fn lemma_move_reversible(
    content: crate::operations::Content,
    pages: Seq<NodeId>,
    page: NodeId,
    page_known: bool,
    ids: Seq<NodeId>,
    moved: Seq<Option<Transform>>,
)
    requires
        crate::operations::filed(content),
    ensures
        moved_layers(content, pages, page, page_known, ids, moved) matches Ok(operations)
            ==> crate::operations::reversible(content, operations),
    decreases ids.len(),
{
    if let Ok(operations) = moved_layers(content, pages, page, page_known, ids, moved) {
        if ids.len() > 0 {
            let pair = move_pair(content, ids[0], page, moved[0]->0);
            lemma_pair_applied(content, ids[0], page, moved[0]->0);
            let next = crate::operations::all_applied(content, pair);
            crate::operations::lemma_applied_filed(content, pair[0]);
            assert(content.nodes[ids[0]].id == ids[0]);
            crate::operations::lemma_applied_filed(
                crate::operations::applied(content, pair[0]),
                pair[1],
            );
            lemma_move_reversible(
                next,
                pages,
                page,
                page_known,
                ids.drop_first(),
                moved.drop_first(),
            );
            let rest = moved_layers(
                next,
                pages,
                page,
                page_known,
                ids.drop_first(),
                moved.drop_first(),
            )->Ok_0;
            crate::operations::lemma_reversible_concat(content, pair, rest);
        }
    }
}

// ---------------------------------------------------------------------------
// Front and back
// ---------------------------------------------------------------------------

/// Order of parents: the top first, then by id.
pub open spec fn parent_rank(parent: Option<NodeId>) -> int {
    match parent {
        None => -1,
        Some(id) => id.raw as int,
    }
}

/// The first layer does not come behind the second: by parent, then by place.
pub open spec fn not_behind(a: CanvasNode, b: CanvasNode) -> bool {
    parent_rank(a.parent) < parent_rank(b.parent) || (parent_rank(a.parent) == parent_rank(
        b.parent,
    ) && a.index.rank <= b.index.rank)
}

pub open spec fn insert_placed(layers: Seq<CanvasNode>, node: CanvasNode) -> Seq<CanvasNode>
    decreases layers.len(),
{
    if layers.len() == 0 || not_behind(layers.last(), node) {
        layers.push(node)
    } else {
        insert_placed(layers.drop_last(), node).push(layers.last())
    }
}

/// The layers of a list of ids that are there, sorted by parent and place;
/// equal ones keep their order.
pub open spec fn placed_layers(nodes: Seq<CanvasNode>, ids: Seq<NodeId>) -> Seq<CanvasNode>
    decreases ids.len(),
{
    if ids.len() == 0 {
        Seq::empty()
    } else {
        let before = placed_layers(nodes, ids.drop_last());
        match crate::scene::find(nodes, ids.last()) {
            Some(node) => insert_placed(before, node),
            None => before,
        }
    }
}

/// The key that brings a layer past all its siblings.
pub open spec fn outer_key(
    nodes: Map<NodeId, CanvasNode>,
    parent: Option<NodeId>,
    front: bool,
) -> IndexKey {
    let edge = match crate::content_walk::extreme_key(nodes, parent, front) {
        Some(key) => key,
        None => IndexKey::initial(),
    };
    if front {
        IndexKey::after(edge)
    } else {
        IndexKey::before(edge)
    }
}

/// Changing the place of layers one after the other, each past the siblings as
/// the ones before it have left them.
pub open spec fn stacked(
    content: crate::operations::Content,
    layers: Seq<CanvasNode>,
    front: bool,
) -> Seq<Operation>
    decreases layers.len(),
{
    if layers.len() == 0 {
        Seq::empty()
    } else {
        let operation = Operation::SetIndex {
            id: layers[0].id,
            old: layers[0].index,
            new: outer_key(content.nodes, layers[0].parent, front),
        };
        seq![operation] + stacked(
            crate::operations::applied(content, operation),
            layers.drop_first(),
            front,
        )
    }
}

/// The order in which the targets are handled.
pub open spec fn stack_order(doc: Doc, ids: Seq<NodeId>, front: bool) -> Seq<CanvasNode> {
    let layers = placed_layers(doc.nodes@, ids);
    if front {
        layers
    } else {
        layers.reverse()
    }
}

/// What bringing to the front, or sending to the back, does.
pub open spec fn stack_outcome(
    doc: Doc,
    id: NodeId,
    front: bool,
    selection_roots: Seq<NodeId>,
) -> Result<Seq<Operation>, LayerError> {
    let ids = crate::layer_context_ops::target_ids(doc, id, selection_roots);
    let layers = stack_order(doc, ids, front);
    if exists|i: int|
        0 <= i < layers.len() && !crate::layer_context_ops::can_edit(
            doc,
            (#[trigger] layers[i]).id,
        ) {
        Err(LayerError::SelectedLocked)
    } else {
        Ok(stacked(doc.content(), layers, front))
    }
}

proof fn lemma_place_at(layers: Seq<CanvasNode>, node: CanvasNode, at: int)
    requires
        0 <= at <= layers.len(),
        forall|j: int| at <= j < layers.len() ==> !not_behind(#[trigger] layers[j], node),
        at > 0 ==> not_behind(layers[at - 1], node),
    ensures
        insert_placed(layers, node) == layers.insert(at, node),
    decreases layers.len(),
{
    if at == layers.len() {
        assert(layers.insert(at, node) =~= layers.push(node));
    } else {
        let front = layers.drop_last();
        assert(!not_behind(layers[layers.len() - 1], node));
        lemma_place_at(front, node, at);
        assert(front.insert(at, node).push(layers.last()) =~= layers.insert(at, node));
    }
}

fn comes_behind(a: &CanvasNode, b: &CanvasNode) -> (r: bool)
    ensures
        r == !not_behind(*a, *b),
{
    match (a.parent, b.parent) {
        (None, None) => a.index.rank > b.index.rank,
        (None, Some(_)) => false,
        (Some(_), None) => true,
        (Some(x), Some(y)) => x.raw > y.raw || (x.raw == y.raw && a.index.rank > b.index.rank),
    }
}

fn collect_placed(doc: &Doc, ids: &Vec<NodeId>) -> (layers: Vec<CanvasNode>)
    ensures
        layers@ == placed_layers(doc.nodes@, ids@),
{
    let mut layers: Vec<CanvasNode> = Vec::new();
    let mut i: usize = 0;
    assert(ids@.take(0) =~= Seq::<NodeId>::empty());
    while i < ids.len()
        invariant
            i <= ids@.len(),
            layers@ == placed_layers(doc.nodes@, ids@.take(i as int)),
        decreases ids@.len() - i,
    {
        proof {
            assert(ids@.take(i + 1).drop_last() =~= ids@.take(i as int));
            assert(ids@.take(i + 1).last() == ids@[i as int]);
        }
        match doc.get(ids[i]) {
            Some(node) => {
                let ghost before = layers@;
                let mut at: usize = layers.len();
                while at > 0 && comes_behind(&layers[at - 1], node)
                    invariant
                        at <= layers@.len(),
                        layers@ == before,
                        forall|j: int|
                            at <= j < before.len() ==> !not_behind(#[trigger] before[j], *node),
                    decreases at,
                {
                    at = at - 1;
                }
                proof {
                    lemma_place_at(before, *node, at as int);
                }
                layers.insert(at, node.copy());
            },
            None => {},
        }
        i = i + 1;
    }
    assert(ids@.take(ids@.len() as int) =~= ids@);
    layers
}

/// Brings the targets to the front of their siblings, or sends them to the
/// back.
pub fn stack(doc: &Doc, id: NodeId, front: bool, selection_roots: &Vec<NodeId>) -> (r: Result<
    Vec<Operation>,
    LayerError,
>)
    requires
        doc.well_formed(),
    ensures
        outcome_of(r) == stack_outcome(*doc, id, front, selection_roots@),
{
    let ids = targets(doc, id, selection_roots);
    let placed = collect_placed(doc, &ids);
    let ghost layers = stack_order(*doc, ids@, front);
    let mut scratch = doc.copy();
    let mut operations: Vec<Operation> = Vec::new();
    let mut i: usize = 0;
    proof {
        crate::layer_context_ops::lemma_same_content(scratch, *doc);
        assert(layers.skip(0) =~= layers);
        assert(operations@ + stacked(doc.content(), layers, front) =~= stacked(
            doc.content(),
            layers,
            front,
        ));
        lemma_placed_found(doc.nodes@, ids@);
        assert forall|k: int| 0 <= k < layers.len() implies crate::scene::find(
            doc.nodes@,
            (#[trigger] layers[k]).id,
        ) == Some(layers[k]) by {
            if !front {
                assert(layers[k] == placed@[placed@.len() - 1 - k]);
            }
        }
    }
    while i < placed.len()
        invariant
            i <= placed@.len(),
            layers == stack_order(*doc, ids@, front),
            ids@ == crate::layer_context_ops::target_ids(*doc, id, selection_roots@),
            placed@ == placed_layers(doc.nodes@, ids@),
            scratch.well_formed(),
            doc.well_formed(),
            forall|k: int|
                0 <= k < layers.len() ==> crate::scene::find(
                    doc.nodes@,
                    (#[trigger] layers[k]).id,
                ) == Some(layers[k]),
            forall|k: NodeId| #[trigger]
                doc.content().nodes.dom().contains(k) ==> scratch.content().nodes.dom().contains(k),
            forall|k: int|
                0 <= k < i ==> crate::layer_context_ops::can_edit(*doc, (#[trigger] layers[k]).id),
            operations@ + stacked(scratch.content(), layers.skip(i as int), front) == stacked(
                doc.content(),
                layers,
                front,
            ),
        decreases placed@.len() - i,
    {
        let place: usize = if front {
            i
        } else {
            placed.len() - 1 - i
        };
        let node = &placed[place];
        let ghost left = layers.skip(i as int);
        proof {
            assert(*node == layers[i as int]);
            assert(left[0] == *node);
            assert(left.drop_first() =~= layers.skip(i + 1));
            crate::content_walk::lemma_child_extremes(scratch, node.parent, front);
            crate::operations::lemma_find_is_content(*doc, node.id);
        }
        if !editable(doc, node.id) {
            assert(!crate::layer_context_ops::can_edit(*doc, layers[i as int].id));
            return Err(LayerError::SelectedLocked);
        }
        let edge = match scratch.extreme_index(node.parent, front) {
            Some(key) => key,
            None => IndexKey::initial(),
        };
        let new = if front {
            IndexKey::after(edge)
        } else {
            IndexKey::before(edge)
        };
        let operation = Operation::SetIndex { id: node.id, old: node.index, new };
        let ghost content = scratch.content();
        let ghost before = operations@;
        let applied = scratch.apply(&operation);
        assert(applied is Ok);
        operations.push(operation);
        proof {
            let rest = stacked(scratch.content(), left.drop_first(), front);
            assert(before + (seq![operation] + rest) =~= operations@ + rest);
        }
        i = i + 1;
    }
    proof {
        assert(layers.skip(i as int).len() == 0);
        assert(operations@ + Seq::<Operation>::empty() =~= operations@);
    }
    Ok(operations)
}

proof fn lemma_placed_found(nodes: Seq<CanvasNode>, ids: Seq<NodeId>)
    ensures
        forall|k: int|
            0 <= k < placed_layers(nodes, ids).len() ==> crate::scene::find(
                nodes,
                (#[trigger] placed_layers(nodes, ids)[k]).id,
            ) == Some(placed_layers(nodes, ids)[k]),
    decreases ids.len(),
{
    if ids.len() > 0 {
        let before = placed_layers(nodes, ids.drop_last());
        lemma_placed_found(nodes, ids.drop_last());
        crate::scene::lemma_find_has_id(nodes, ids.last());
        if let Some(node) = crate::scene::find(nodes, ids.last()) {
            lemma_insert_placed_members(before, node);
            let all = insert_placed(before, node);
            assert forall|k: int| 0 <= k < all.len() implies crate::scene::find(
                nodes,
                (#[trigger] all[k]).id,
            ) == Some(all[k]) by {
                assert(all.contains(all[k]));
                if all[k] != node {
                    let j = choose|j: int| 0 <= j < before.len() && before[j] == all[k];
                    assert(before[j] == all[k]);
                }
            }
        }
    }
}

proof fn lemma_insert_placed_members(layers: Seq<CanvasNode>, node: CanvasNode)
    ensures
        forall|k: int|
            0 <= k < insert_placed(layers, node).len() ==> (#[trigger] insert_placed(
                layers,
                node,
            )[k]) == node || layers.contains(insert_placed(layers, node)[k]),
        insert_placed(layers, node).len() == layers.len() + 1,
    decreases layers.len(),
{
    let all = insert_placed(layers, node);
    if layers.len() == 0 || not_behind(layers.last(), node) {
        assert forall|k: int| 0 <= k < all.len() implies (#[trigger] all[k]) == node
            || layers.contains(all[k]) by {
            if k < layers.len() {
                assert(layers[k] == all[k]);
            }
        }
    } else {
        let front = layers.drop_last();
        let inner = insert_placed(front, node);
        lemma_insert_placed_members(front, node);
        assert forall|k: int| 0 <= k < all.len() implies (#[trigger] all[k]) == node
            || layers.contains(all[k]) by {
            if k < inner.len() {
                assert(all[k] == inner[k]);
                if inner[k] != node {
                    let j = choose|j: int| 0 <= j < front.len() && front[j] == inner[k];
                    assert(layers[j] == all[k]);
                }
            } else {
                assert(layers[layers.len() - 1] == all[k]);
            }
        }
    }
}

/// Bringing layers to the front, or sending them to the back, can be taken
/// back, where no layer is named twice.
pub proof fn lemma_stack_reversible(
    content: crate::operations::Content,
    layers: Seq<CanvasNode>,
    front: bool,
)
    requires
        crate::operations::filed(content),
        forall|k: int|
            0 <= k < layers.len() ==> content.nodes.dom().contains((#[trigger] layers[k]).id)
                && content.nodes[layers[k].id].index == layers[k].index,
        forall|j: int, k: int|
            0 <= j < k < layers.len() ==> (#[trigger] layers[j]).id != (#[trigger] layers[k]).id,
    ensures
        crate::operations::reversible(content, stacked(content, layers, front)),
    decreases layers.len(),
{
    if layers.len() > 0 {
        let operation = Operation::SetIndex {
            id: layers[0].id,
            old: layers[0].index,
            new: outer_key(content.nodes, layers[0].parent, front),
        };
        let next = crate::operations::applied(content, operation);
        let rest = layers.drop_first();
        crate::operations::lemma_applied_filed(content, operation);
        assert(content.nodes[layers[0].id].id == layers[0].id);
        assert forall|k: int| 0 <= k < rest.len() implies next.nodes.dom().contains(
            (#[trigger] rest[k]).id,
        ) && next.nodes[rest[k].id].index == rest[k].index by {
            assert(rest[k] == layers[k + 1]);
            assert(layers[0].id != layers[k + 1].id);
        }
        assert forall|j: int, k: int| 0 <= j < k < rest.len() implies (#[trigger] rest[j]).id != (
        #[trigger] rest[k]).id by {
            assert(layers[j + 1].id != layers[k + 1].id);
        }
        lemma_stack_reversible(next, rest, front);
        let one = seq![operation];
        assert(one.drop_last() =~= Seq::<Operation>::empty());
        assert(one.last() == operation);
        assert(crate::operations::reversible(content, Seq::<Operation>::empty()));
        assert(crate::operations::all_applied(content, Seq::<Operation>::empty()) == content);
        assert(crate::operations::all_applied(content, one) == next);
        assert(crate::operations::reversible(content, one));
        crate::operations::lemma_reversible_concat(content, one, stacked(next, rest, front));
    }
}

} // verus!
