//! Laws: what the commands of the layer menu make of a document, said of the
//! document as it is once their operations are carried out.

use vstd::prelude::*;

use crate::document::{
    AutoLayout, BitmapNode, BooleanNode, CanvasNode, ComponentDef, ComponentSet, Doc, GroupNode,
    LayoutMode, NodeData, TextNode, Transform, VectorNode,
};
use crate::ids::{ComponentId, NodeId};
use crate::layer_context_ops::LayerAction;
use crate::layer_errors::LayerError;
use crate::layer_simple::SimpleFacts;
use crate::operations::{Content, Operation};
use crate::paint::{BlendMode, CropWindow, Fill, ImageAdjust, Size, Stroke};
use crate::scalar::Scalar;

verus! {

/// The layers that a command on one layer is meant for: all that are selected with
/// it, or the layer alone.
pub open spec fn meant(doc: Doc, id: NodeId, selection_roots: Seq<NodeId>) -> Seq<NodeId> {
    if doc.selection@.contains(id) {
        selection_roots
    } else {
        seq![id]
    }
}

/// One list of operations behind another.
proof fn lemma_in_turn(content: Content, a: Seq<Operation>, b: Seq<Operation>)
    ensures
        crate::operations::all_applied(content, a + b) == crate::operations::all_applied(
            crate::operations::all_applied(content, a),
            b,
        ),
        crate::operations::carried(content, a + b) <==> crate::operations::carried(content, a)
            && crate::operations::carried(crate::operations::all_applied(content, a), b),
    decreases b.len(),
{
    if b.len() == 0 {
        assert(a + b =~= a);
    } else {
        lemma_in_turn(content, a, b.drop_last());
        assert((a + b).drop_last() =~= a + b.drop_last());
    }
}

proof fn lemma_one_step(content: Content, operation: Operation)
    ensures
        crate::operations::all_applied(content, seq![operation]) == crate::operations::applied(
            content,
            operation,
        ),
        crate::operations::carried(content, seq![operation]) <==> crate::operations::applicable(
            content,
            operation,
        ),
{
    reveal_with_fuel(crate::operations::all_applied, 2);
    reveal_with_fuel(crate::operations::carried, 2);
    assert(seq![operation].drop_last() =~= Seq::<Operation>::empty());
}

// ---------------------------------------------------------------------------
// Pasting properties
// ---------------------------------------------------------------------------

/// The fills that a layer shows: those of an outline, a combination or a group,
/// the color of a text, the picture of a picture layer.
pub open spec fn fills_of(data: NodeData) -> Seq<Fill> {
    match data {
        NodeData::Vector(vector) => vector.fills@,
        NodeData::Boolean(boolean) => boolean.fills@,
        NodeData::Group(group) => match group.background {
            Some(background) => seq![background] + group.background_fills@,
            None => group.background_fills@,
        },
        NodeData::Text(text) => seq![
            Fill::Solid { color: text.style.color, blend: BlendMode::Normal },
        ],
        NodeData::Bitmap(bitmap) => seq![
            Fill::Image {
                asset: bitmap.asset,
                mode: bitmap.fit,
                opacity: Scalar { bits: 0x3ff0_0000_0000_0000 },
                crop: bitmap.crop,
                scale: None,
                rotation: None,
                blend: BlendMode::Normal,
                adjust: ImageAdjust::none(),
            },
        ],
        _ => Seq::empty(),
    }
}

/// The strokes that a layer shows: those of an outline, a combination or a group.
pub open spec fn strokes_of(data: NodeData) -> Seq<Stroke> {
    match data {
        NodeData::Vector(vector) => vector.strokes@,
        NodeData::Boolean(boolean) => boolean.strokes@,
        NodeData::Group(group) => group.strokes@,
        _ => Seq::empty(),
    }
}

/// The data have the look of the source and are otherwise what they were. An
/// outline, a combination and a group show the fills and the strokes that the
/// source shows; a text takes the style of a text; any other layer stays.
pub open spec fn has_look(before: NodeData, source: NodeData, after: NodeData) -> bool {
    match before {
        NodeData::Vector(a) => after matches NodeData::Vector(b) && b == (VectorNode {
            fills: b.fills,
            strokes: b.strokes,
            ..a
        }) && fills_of(after) == fills_of(source) && strokes_of(after) == strokes_of(source),
        NodeData::Boolean(a) => after matches NodeData::Boolean(b) && b == (BooleanNode {
            fills: b.fills,
            strokes: b.strokes,
            ..a
        }) && fills_of(after) == fills_of(source) && strokes_of(after) == strokes_of(source),
        NodeData::Group(a) => after matches NodeData::Group(b) && b == (GroupNode {
            background: b.background,
            background_fills: b.background_fills,
            strokes: b.strokes,
            ..a
        }) && fills_of(after) == fills_of(source) && strokes_of(after) == strokes_of(source),
        NodeData::Text(a) => after matches NodeData::Text(b) && b == (TextNode {
            style: b.style,
            ..a
        }) && if source is Text {
            b.style == source->Text_0.style
        } else {
            b.style == a.style
        },
        _ => after == before,
    }
}

/// The layer has the look of the source and is otherwise what it was.
pub open spec fn looks_like(before: CanvasNode, source: CanvasNode, after: CanvasNode) -> bool {
    &&& after == (CanvasNode {
        data: after.data,
        opacity: source.opacity,
        blend_mode: source.blend_mode,
        effects: source.effects,
        blurs: source.blurs,
        ..before
    })
    &&& has_look(*before.data, *source.data, *after.data)
}

/// The first `k` of the layers have the look of the source, and the others are
/// untouched.
spec fn pasted_so_far(
    before: Content,
    after: Content,
    ids: Seq<NodeId>,
    source: CanvasNode,
    k: int,
) -> bool {
    &&& after == (Content { nodes: after.nodes, ..before })
    &&& after.nodes.dom() =~= before.nodes.dom()
    &&& forall|id: NodeId|
        before.nodes.dom().contains(id) ==> if ids.take(k).contains(id) {
            looks_like(before.nodes[id], source, #[trigger] after.nodes[id])
        } else {
            after.nodes[id] == before.nodes[id]
        }
}

proof fn lemma_one_pasted(
    before: Content,
    content: Content,
    operations: Seq<Operation>,
    id: NodeId,
    source: CanvasNode,
)
    requires
        before.nodes.dom().contains(id),
        content.nodes.dom() == before.nodes.dom(),
        before.nodes[id].id == id,
        content.nodes[id] == before.nodes[id] || looks_like(
            before.nodes[id],
            source,
            content.nodes[id],
        ),
        crate::layer_context_ops::restyles(operations, before.nodes[id], source),
    ensures
        crate::operations::carried(content, operations),
        ({
            let after = crate::operations::all_applied(content, operations);
            &&& looks_like(before.nodes[id], source, after.nodes[id])
            &&& after == (Content {
                nodes: content.nodes.insert(id, after.nodes[id]),
                ..content
            })
        }),
{
    reveal_with_fuel(crate::operations::all_applied, 6);
    reveal_with_fuel(crate::operations::carried, 6);
    let o = operations;
    assert(o.drop_last() =~= seq![o[0], o[1], o[2], o[3]]);
    assert(o.drop_last().drop_last() =~= seq![o[0], o[1], o[2]]);
    assert(o.drop_last().drop_last().drop_last() =~= seq![o[0], o[1]]);
    assert(o.drop_last().drop_last().drop_last().drop_last() =~= seq![o[0]]);
    assert(o.drop_last().drop_last().drop_last().drop_last().drop_last() =~= Seq::<
        Operation,
    >::empty());
    let c1 = crate::operations::applied(content, o[0]);
    let c2 = crate::operations::applied(c1, o[1]);
    let c3 = crate::operations::applied(c2, o[2]);
    let c4 = crate::operations::applied(c3, o[3]);
    let c5 = crate::operations::applied(c4, o[4]);
    assert(c5 == crate::operations::all_applied(content, operations));
    assert(c5.nodes =~= content.nodes.insert(id, c5.nodes[id]));
    let new = *c5.nodes[id].data;
    assert(crate::layer_context_ops::restyled(*before.nodes[id].data, *source.data, new));
    assert(has_look(*before.nodes[id].data, *source.data, new));
}

proof fn lemma_pasted_upto(
    doc: Doc,
    ids: Seq<NodeId>,
    source: CanvasNode,
    operations: Seq<Operation>,
    k: int,
)
    requires
        doc.well_formed(),
        0 <= k <= ids.len(),
        operations.len() == 5 * ids.len(),
        !crate::layer_context_ops::any_locked(doc, ids),
        forall|i: int|
            0 <= i < ids.len() ==> crate::layer_context_ops::restyles(
                operations.subrange(5 * i, 5 * i + 5),
                crate::scene::find(doc.nodes@, #[trigger] ids[i])->0,
                source,
            ),
    ensures
        crate::operations::carried(doc.content(), operations.take(5 * k)),
        pasted_so_far(
            doc.content(),
            crate::operations::all_applied(doc.content(), operations.take(5 * k)),
            ids,
            source,
            k,
        ),
    decreases k,
{
    let before = doc.content();
    if k == 0 {
        assert(operations.take(0) =~= Seq::<Operation>::empty());
    } else {
        lemma_pasted_upto(doc, ids, source, operations, k - 1);
        let a = operations.take(5 * (k - 1));
        let b = operations.subrange(5 * (k - 1), 5 * (k - 1) + 5);
        assert(operations.take(5 * k) =~= a + b);
        lemma_in_turn(before, a, b);
        let id = ids[k - 1];
        crate::operations::lemma_find_is_content(doc, id);
        assert(crate::layer_context_ops::can_edit(doc, id));
        let content = crate::operations::all_applied(before, a);
        lemma_one_pasted(before, content, b, id, source);
        let after = crate::operations::all_applied(before, operations.take(5 * k));
        assert(ids.take(k)[k - 1] == id);
        assert forall|other: NodeId| before.nodes.dom().contains(other) implies if ids.take(
            k,
        ).contains(other) {
            looks_like(before.nodes[other], source, #[trigger] after.nodes[other])
        } else {
            after.nodes[other] == before.nodes[other]
        } by {
            assert(content.nodes.dom().contains(other));
            if other != id {
                assert(after.nodes[other] == content.nodes[other]);
                if ids.take(k).contains(other) {
                    let j = choose|j: int| 0 <= j < k && ids.take(k)[j] == other;
                    assert(ids.take(k - 1)[j] == other);
                } else if ids.take(k - 1).contains(other) {
                    let earlier = ids.take(k - 1);
                    let j = choose|j: int| 0 <= j < earlier.len() && earlier[j] == other;
                    assert(ids.take(k)[j] == other);
                }
            }
        }
    }
}

/// Pasting properties: every layer that is meant has the look of the source, the
/// same fills and strokes where it shows any, and its own shape and place; no other
/// layer changes. It is refused exactly where a layer may not be edited.
pub proof fn lemma_paste_gives_look(
    doc: Doc,
    id: NodeId,
    source: CanvasNode,
    selection_roots: Seq<NodeId>,
    r: Result<Vec<Operation>, LayerError>,
)
    requires
        doc.well_formed(),
        crate::layer_context_ops::paste_outcome(doc, id, source, selection_roots, r),
    ensures
        r is Err <==> exists|i: int|
            0 <= i < meant(doc, id, selection_roots).len() && !crate::layer_context_ops::can_edit(
                doc,
                #[trigger] meant(doc, id, selection_roots)[i],
            ),
        r matches Ok(operations) ==> ({
            let before = doc.content();
            let after = crate::operations::all_applied(before, operations@);
            let ids = meant(doc, id, selection_roots);
            &&& crate::operations::carried(before, operations@)
            &&& after == (Content { nodes: after.nodes, ..before })
            &&& after.nodes.dom() == before.nodes.dom()
            &&& forall|i: int|
                0 <= i < ids.len() ==> before.nodes.dom().contains(#[trigger] ids[i])
                    && looks_like(before.nodes[ids[i]], source, after.nodes[ids[i]])
            &&& forall|other: NodeId|
                before.nodes.dom().contains(other) && !ids.contains(other)
                    ==> #[trigger] after.nodes[other] == before.nodes[other]
        }),
{
    let ids = meant(doc, id, selection_roots);
    if let Ok(operations) = r {
        lemma_pasted_upto(doc, ids, source, operations@, ids.len() as int);
        assert(operations@.take(5 * (ids.len() as int)) =~= operations@);
        assert(ids.take(ids.len() as int) =~= ids);
        assert forall|i: int| 0 <= i < ids.len() implies doc.content().nodes.dom().contains(
            #[trigger] ids[i],
        ) && looks_like(
            doc.content().nodes[ids[i]],
            source,
            crate::operations::all_applied(doc.content(), operations@).nodes[ids[i]],
        ) by {
            assert(crate::layer_context_ops::can_edit(doc, ids[i]));
            crate::operations::lemma_find_is_content(doc, ids[i]);
        }
    }
}

/// Pasting from an outline to an outline makes their fills and strokes equal.
pub proof fn lemma_paste_between_outlines(
    doc: Doc,
    id: NodeId,
    source: CanvasNode,
    selection_roots: Seq<NodeId>,
    operations: Vec<Operation>,
    target: NodeId,
)
    requires
        doc.well_formed(),
        crate::layer_context_ops::paste_outcome(
            doc,
            id,
            source,
            selection_roots,
            Ok(operations),
        ),
        meant(doc, id, selection_roots).contains(target),
        *source.data is Vector,
        *doc.content().nodes[target].data is Vector,
    ensures
        ({
            let after = crate::operations::all_applied(doc.content(), operations@).nodes[target];
            &&& *after.data is Vector
            &&& after.data->Vector_0.strokes@ == source.data->Vector_0.strokes@
            &&& after.data->Vector_0.fills@ == source.data->Vector_0.fills@
            &&& after.data->Vector_0.path == doc.content().nodes[target].data->Vector_0.path
        }),
{
    lemma_paste_gives_look(doc, id, source, selection_roots, Ok(operations));
    let ids = meant(doc, id, selection_roots);
    let i = choose|i: int| 0 <= i < ids.len() && ids[i] == target;
    assert(ids[i] == target);
}

// ---------------------------------------------------------------------------
// Front and back
// ---------------------------------------------------------------------------

/// Some layer of a finite set stands at the edge.
proof fn lemma_edge(nodes: Map<NodeId, CanvasNode>, ids: Set<NodeId>, last: bool) -> (edge: NodeId)
    requires
        ids.finite(),
        ids.len() > 0,
    ensures
        ids.contains(edge),
        forall|id: NodeId| #[trigger]
            ids.contains(id) ==> if last {
                nodes[id].index.rank <= nodes[edge].index.rank
            } else {
                nodes[edge].index.rank <= nodes[id].index.rank
            },
    decreases ids.len(),
{
    let some = ids.choose();
    assert(ids.contains(some));
    if ids.len() == 1 {
        assert forall|id: NodeId| #[trigger] ids.contains(id) implies id == some by {
            if id != some {
                assert(ids.remove(some).contains(id));
                assert(ids.remove(some).len() == 0);
                assert(ids.remove(some) =~= Set::<NodeId>::empty());
            }
        }
        some
    } else {
        let rest = lemma_edge(nodes, ids.remove(some), last);
        assert forall|id: NodeId| #[trigger] ids.contains(id) implies id == some
            || ids.remove(some).contains(id) by {}
        if (nodes[some].index.rank <= nodes[rest].index.rank) == last {
            rest
        } else {
            some
        }
    }
}

/// The key that brings a layer past its siblings lies past all of them.
proof fn lemma_outer_key(nodes: Map<NodeId, CanvasNode>, id: NodeId, front: bool)
    requires
        nodes.dom().finite(),
        nodes.dom().contains(id),
        forall|other: NodeId| #[trigger]
            nodes.dom().contains(other) ==> i64::MIN < nodes[other].index.rank < i64::MAX,
    ensures
        ({
            let key = crate::layer_moves::outer_key(nodes, nodes[id].parent, front);
            &&& forall|other: NodeId| #[trigger]
                nodes.dom().contains(other) && nodes[other].parent == nodes[id].parent ==> if front {
                    nodes[other].index.rank < key.rank
                } else {
                    key.rank < nodes[other].index.rank
                }
            &&& exists|other: NodeId| #[trigger]
                nodes.dom().contains(other) && if front {
                    key.rank == nodes[other].index.rank + 1
                } else {
                    key.rank == nodes[other].index.rank - 1
                }
        }),
{
    let parent = nodes[id].parent;
    let siblings = nodes.dom().filter(|other: NodeId| nodes[other].parent == parent);
    assert(siblings.contains(id));
    vstd::set_lib::lemma_len_subset(siblings, nodes.dom());
    if siblings.len() == 0 {
        assert(siblings =~= Set::<NodeId>::empty());
    }
    let edge = lemma_edge(nodes, siblings, front);
    assert(nodes.dom().contains(edge));
    assert forall|other: NodeId| #[trigger]
        nodes.dom().contains(other) && nodes[other].parent == parent implies siblings.contains(
        other,
    ) by {}
    assert(crate::content_walk::is_extreme(nodes, parent, front, nodes[edge].index));
    crate::content_walk::lemma_extreme_unique(nodes, parent, front, nodes[edge].index);
}

/// There is room for `n` more keys on either side.
pub open spec fn has_room(content: Content, n: int) -> bool {
    forall|id: NodeId| #[trigger]
        content.nodes.dom().contains(id) ==> i64::MIN + n < content.nodes[id].index.rank
            < i64::MAX - n
}

/// The layer is one of those in the list.
spec fn listed(layers: Seq<CanvasNode>, id: NodeId) -> bool {
    exists|k: int| 0 <= k < layers.len() && (#[trigger] layers[k]).id == id
}

proof fn lemma_stacked(content: Content, layers: Seq<CanvasNode>, front: bool)
    requires
        crate::operations::filed(content),
        content.nodes.dom().finite(),
        has_room(content, layers.len() as int),
        forall|k: int|
            0 <= k < layers.len() ==> content.nodes.dom().contains((#[trigger] layers[k]).id)
                && content.nodes[layers[k].id].parent == layers[k].parent,
        forall|j: int, k: int|
            0 <= j < k < layers.len() ==> (#[trigger] layers[j]).id != (#[trigger] layers[k]).id,
    ensures
        crate::operations::carried(
            content,
            crate::layer_moves::stacked(content, layers, front),
        ),
        ({
            let after = crate::operations::all_applied(
                content,
                crate::layer_moves::stacked(content, layers, front),
            );
            &&& after == (Content { nodes: after.nodes, ..content })
            &&& after.nodes.dom() == content.nodes.dom()
            &&& forall|id: NodeId|
                content.nodes.dom().contains(id) ==> (#[trigger] after.nodes[id]) == (CanvasNode {
                    index: after.nodes[id].index,
                    ..content.nodes[id]
                })
            &&& forall|id: NodeId|
                content.nodes.dom().contains(id) && !listed(layers, id) ==> (
                #[trigger] after.nodes[id]) == content.nodes[id]
            &&& forall|j: int, k: int|
                0 <= j < k < layers.len() && layers[j].parent == layers[k].parent ==> if front {
                    after.nodes[(#[trigger] layers[j]).id].index.rank < after.nodes[(
                    #[trigger] layers[k]).id].index.rank
                } else {
                    after.nodes[layers[k].id].index.rank < after.nodes[layers[j].id].index.rank
                }
            &&& forall|k: int, id: NodeId|
                0 <= k < layers.len() && content.nodes.dom().contains(id) && !listed(layers, id)
                    && content.nodes[id].parent == layers[k].parent ==> if front {
                    (#[trigger] after.nodes[id]).index.rank < after.nodes[(
                    #[trigger] layers[k]).id].index.rank
                } else {
                    after.nodes[layers[k].id].index.rank < after.nodes[id].index.rank
                }
        }),
    decreases layers.len(),
{
    reveal_with_fuel(crate::layer_moves::stacked, 2);
    if layers.len() > 0 {
        let first = layers[0];
        let rest = layers.drop_first();
        let operation = Operation::SetIndex {
            id: first.id,
            old: first.index,
            new: crate::layer_moves::outer_key(content.nodes, first.parent, front),
        };
        let next = crate::operations::applied(content, operation);
        assert(crate::operations::applicable(content, operation));
        crate::operations::lemma_applied_filed(content, operation);
        lemma_outer_key(content.nodes, first.id, front);
        assert(next.nodes.dom() =~= content.nodes.dom());
        assert forall|k: int| 0 <= k < rest.len() implies next.nodes.dom().contains(
            (#[trigger] rest[k]).id,
        ) && next.nodes[rest[k].id].parent == rest[k].parent by {
            assert(rest[k] == layers[k + 1]);
        }
        assert forall|j: int, k: int| 0 <= j < k < rest.len() implies (#[trigger] rest[j]).id != (
        #[trigger] rest[k]).id by {
            assert(rest[j] == layers[j + 1] && rest[k] == layers[k + 1]);
        }
        assert(has_room(next, rest.len() as int)) by {
            assert forall|id: NodeId| #[trigger] next.nodes.dom().contains(id) implies i64::MIN
                + rest.len() < next.nodes[id].index.rank < i64::MAX - rest.len() by {
                assert(content.nodes.dom().contains(id));
            }
        }
        lemma_stacked(next, rest, front);
        let more = crate::layer_moves::stacked(next, rest, front);
        lemma_one_step(content, operation);
        lemma_in_turn(content, seq![operation], more);
        let after = crate::operations::all_applied(next, more);
        assert(!listed(rest, first.id)) by {
            if listed(rest, first.id) {
                let k = choose|k: int| 0 <= k < rest.len() && (#[trigger] rest[k]).id == first.id;
                assert(rest[k] == layers[k + 1]);
            }
        }
        assert(after.nodes[first.id] == next.nodes[first.id]);
        assert forall|id: NodeId|
            content.nodes.dom().contains(id) && !listed(layers, id) implies !listed(rest, id) && id
            != first.id by {
            if listed(rest, id) {
                let k = choose|k: int| 0 <= k < rest.len() && (#[trigger] rest[k]).id == id;
                assert(layers[k + 1].id == id);
            }
            assert(layers[0].id == first.id);
        }
        assert forall|j: int, k: int|
            0 <= j < k < layers.len() && layers[j].parent == layers[k].parent implies if front {
            after.nodes[(#[trigger] layers[j]).id].index.rank < after.nodes[(
            #[trigger] layers[k]).id].index.rank
        } else {
            after.nodes[layers[k].id].index.rank < after.nodes[layers[j].id].index.rank
        } by {
            assert(layers[k] == rest[k - 1]);
            if j > 0 {
                assert(layers[j] == rest[j - 1]);
            } else {
                assert(next.nodes[first.id].parent == rest[k - 1].parent);
            }
        }
        assert forall|k: int, id: NodeId|
            0 <= k < layers.len() && content.nodes.dom().contains(id) && !listed(layers, id)
                && content.nodes[id].parent == layers[k].parent implies if front {
            (#[trigger] after.nodes[id]).index.rank < after.nodes[(
            #[trigger] layers[k]).id].index.rank
        } else {
            after.nodes[layers[k].id].index.rank < after.nodes[id].index.rank
        } by {
            assert(next.nodes[id] == content.nodes[id]);
            if k > 0 {
                assert(layers[k] == rest[k - 1]);
            }
        }
    }
}

proof fn lemma_insert_sorted(layers: Seq<CanvasNode>, node: CanvasNode)
    requires
        forall|j: int, k: int|
            0 <= j < k < layers.len() ==> crate::layer_moves::not_behind(
                #[trigger] layers[j],
                #[trigger] layers[k],
            ),
        forall|k: int| 0 <= k < layers.len() ==> (#[trigger] layers[k]).id != node.id,
        forall|j: int, k: int|
            0 <= j < k < layers.len() ==> (#[trigger] layers[j]).id != (#[trigger] layers[k]).id,
    ensures
        ({
            let all = crate::layer_moves::insert_placed(layers, node);
            &&& all.len() == layers.len() + 1
            &&& forall|j: int, k: int|
                0 <= j < k < all.len() ==> crate::layer_moves::not_behind(
                    #[trigger] all[j],
                    #[trigger] all[k],
                ) && all[j].id != all[k].id
            &&& forall|x: CanvasNode| #[trigger]
                all.contains(x) <==> x == node || layers.contains(x)
        }),
    decreases layers.len(),
{
    let all = crate::layer_moves::insert_placed(layers, node);
    if layers.len() == 0 || crate::layer_moves::not_behind(layers.last(), node) {
        assert(all =~= layers.push(node));
        assert forall|x: CanvasNode| #[trigger] all.contains(x) <==> x == node || layers.contains(
            x,
        ) by {
            if layers.contains(x) {
                let i = choose|i: int| 0 <= i < layers.len() && layers[i] == x;
                assert(all[i] == x);
            }
            assert(all[layers.len() as int] == node);
        }
        assert forall|j: int, k: int| 0 <= j < k < all.len() implies crate::layer_moves::not_behind(
            #[trigger] all[j],
            #[trigger] all[k],
        ) && all[j].id != all[k].id by {
            if k == layers.len() && j < layers.len() - 1 {
                assert(crate::layer_moves::not_behind(layers[j], layers[layers.len() - 1]));
            }
        }
    } else {
        let front = layers.drop_last();
        lemma_insert_sorted(front, node);
        let inner = crate::layer_moves::insert_placed(front, node);
        assert(all =~= inner.push(layers.last()));
        assert forall|x: CanvasNode| #[trigger] all.contains(x) <==> x == node || layers.contains(
            x,
        ) by {
            if layers.contains(x) {
                let i = choose|i: int| 0 <= i < layers.len() && layers[i] == x;
                if i < front.len() {
                    assert(front[i] == x);
                    assert(inner.contains(x));
                }
            }
            if x == node {
                assert(inner.contains(x));
            }
            if inner.contains(x) {
                let i = choose|i: int| 0 <= i < inner.len() && inner[i] == x;
                assert(all[i] == x);
                if x != node {
                    let m = choose|m: int| 0 <= m < front.len() && front[m] == x;
                    assert(layers[m] == x);
                }
            }
            assert(all[inner.len() as int] == layers.last());
            assert(layers[layers.len() - 1] == layers.last());
        }
        assert forall|j: int, k: int| 0 <= j < k < all.len() implies crate::layer_moves::not_behind(
            #[trigger] all[j],
            #[trigger] all[k],
        ) && all[j].id != all[k].id by {
            if k == inner.len() {
                assert(inner.contains(inner[j]));
                if inner[j] != node {
                    let m = choose|m: int| 0 <= m < front.len() && front[m] == inner[j];
                    assert(layers[m] == inner[j]);
                }
            }
        }
    }
}

proof fn lemma_placed_sorted(nodes: Seq<CanvasNode>, ids: Seq<NodeId>)
    requires
        forall|i: int, j: int| 0 <= i < j < ids.len() ==> #[trigger] ids[i] != #[trigger] ids[j],
    ensures
        ({
            let layers = crate::layer_moves::placed_layers(nodes, ids);
            &&& layers.len() <= ids.len()
            &&& forall|j: int, k: int|
                0 <= j < k < layers.len() ==> crate::layer_moves::not_behind(
                    #[trigger] layers[j],
                    #[trigger] layers[k],
                ) && layers[j].id != layers[k].id
            &&& forall|x: CanvasNode| #[trigger]
                layers.contains(x) <==> ids.contains(x.id) && crate::scene::find(nodes, x.id)
                    == Some(x)
        }),
    decreases ids.len(),
{
    if ids.len() > 0 {
        let rest = ids.drop_last();
        lemma_placed_sorted(nodes, rest);
        let before = crate::layer_moves::placed_layers(nodes, rest);
        let layers = crate::layer_moves::placed_layers(nodes, ids);
        crate::scene::lemma_find_has_id(nodes, ids.last());
        assert forall|x: CanvasNode| ids.contains(x.id) <==> #[trigger] rest.contains(x.id) || x.id
            == ids.last() by {
            if rest.contains(x.id) {
                let i = choose|i: int| 0 <= i < rest.len() && rest[i] == x.id;
                assert(ids[i] == x.id);
            }
            if ids.contains(x.id) {
                let i = choose|i: int| 0 <= i < ids.len() && ids[i] == x.id;
                if i < rest.len() {
                    assert(rest[i] == x.id);
                }
            }
            assert(ids[ids.len() - 1] == ids.last());
        }
        match crate::scene::find(nodes, ids.last()) {
            Some(node) => {
                assert forall|k: int| 0 <= k < before.len() implies (#[trigger] before[k]).id
                    != node.id by {
                    assert(before.contains(before[k]));
                    let i = choose|i: int| 0 <= i < rest.len() && rest[i] == before[k].id;
                    assert(ids[i] != ids[ids.len() - 1]);
                }
                lemma_insert_sorted(before, node);
            },
            None => {},
        }
        assert forall|x: CanvasNode| #[trigger] layers.contains(x) <==> ids.contains(x.id)
            && crate::scene::find(nodes, x.id) == Some(x) by {
            assert(before.contains(x) <==> rest.contains(x.id) && crate::scene::find(nodes, x.id)
                == Some(x));
        }
    }
}

/// Bringing to the front, and sending to the back: any two targets of one parent
/// keep their order, every target comes after (front) or before (back) every sibling
/// that is no target, and nothing but the places of the targets changes. No target
/// is named twice, and there is a place left for each.
pub proof fn lemma_stack_keeps_order(
    doc: Doc,
    id: NodeId,
    front: bool,
    selection_roots: Seq<NodeId>,
    r: Result<Vec<Operation>, LayerError>,
)
    requires
        doc.well_formed(),
        crate::layer_moves::outcome_of(r) == crate::layer_moves::stack_outcome(
            doc,
            id,
            front,
            selection_roots,
        ),
        forall|i: int, j: int|
            0 <= i < j < meant(doc, id, selection_roots).len() ==> #[trigger] meant(
                doc,
                id,
                selection_roots,
            )[i] != #[trigger] meant(doc, id, selection_roots)[j],
        has_room(doc.content(), meant(doc, id, selection_roots).len() as int),
    ensures
        r is Err <==> exists|target: NodeId| #[trigger]
            meant(doc, id, selection_roots).contains(target)
                && doc.content().nodes.dom().contains(target)
                && !crate::layer_context_ops::can_edit(doc, target),
        r matches Ok(operations) ==> ({
            let before = doc.content();
            let after = crate::operations::all_applied(before, operations@);
            let targets = meant(doc, id, selection_roots);
            &&& crate::operations::carried(before, operations@)
            &&& after == (Content { nodes: after.nodes, ..before })
            &&& after.nodes.dom() == before.nodes.dom()
            &&& forall|layer: NodeId|
                before.nodes.dom().contains(layer) ==> (#[trigger] after.nodes[layer]) == (
                CanvasNode { index: after.nodes[layer].index, ..before.nodes[layer] })
            &&& forall|layer: NodeId|
                before.nodes.dom().contains(layer) && !targets.contains(layer)
                    ==> #[trigger] after.nodes[layer] == before.nodes[layer]
            &&& forall|a: NodeId, b: NodeId|
                targets.contains(a) && targets.contains(b) && before.nodes.dom().contains(a)
                    && before.nodes.dom().contains(b) && before.nodes[a].parent
                    == before.nodes[b].parent && before.nodes[a].index.rank
                    < before.nodes[b].index.rank ==> (#[trigger] after.nodes[a]).index.rank < (
                #[trigger] after.nodes[b]).index.rank
            &&& forall|target: NodeId, other: NodeId|
                targets.contains(target) && !targets.contains(other)
                    && before.nodes.dom().contains(target) && before.nodes.dom().contains(other)
                    && before.nodes[target].parent == before.nodes[other].parent ==> if front {
                    (#[trigger] after.nodes[other]).index.rank < (
                    #[trigger] after.nodes[target]).index.rank
                } else {
                    after.nodes[target].index.rank < after.nodes[other].index.rank
                }
        }),
{
    let before = doc.content();
    let targets = meant(doc, id, selection_roots);
    let placed = crate::layer_moves::placed_layers(doc.nodes@, targets);
    let layers = crate::layer_moves::stack_order(doc, targets, front);
    crate::operations::lemma_doc_filed(doc);
    crate::keyed::lemma_keyed_len(doc.nodes@, crate::operations::node_key());
    lemma_placed_sorted(doc.nodes@, targets);
    let n = placed.len() as int;
    assert(layers.len() == n);
    assert forall|k: int| 0 <= k < n implies (#[trigger] layers[k]) == (if front {
        placed[k]
    } else {
        placed[n - 1 - k]
    }) by {}
    assert forall|k: int| 0 <= k < n implies before.nodes.dom().contains((#[trigger] layers[k]).id)
        && before.nodes[layers[k].id] == layers[k] && targets.contains(layers[k].id) by {
        let at = if front {
            k
        } else {
            n - 1 - k
        };
        assert(placed.contains(placed[at]));
        crate::operations::lemma_find_is_content(doc, placed[at].id);
    }
    assert forall|target: NodeId|
        targets.contains(target) && before.nodes.dom().contains(target) implies #[trigger] listed(
        layers,
        target,
    ) by {
        crate::operations::lemma_find_is_content(doc, target);
        assert(placed.contains(before.nodes[target]));
        let k = choose|k: int| 0 <= k < n && placed[k] == before.nodes[target];
        if front {
            assert(layers[k].id == target);
        } else {
            assert(layers[n - 1 - k].id == target);
        }
    }
    assert forall|j: int, k: int| 0 <= j < k < n implies (#[trigger] layers[j]).id != (
    #[trigger] layers[k]).id by {
        if !front {
            assert(placed[n - 1 - k].id != placed[n - 1 - j].id);
        }
    }
    assert(has_room(before, n));
    lemma_stacked(before, layers, front);
    if r is Err {
        let i = choose|i: int|
            0 <= i < layers.len() && !crate::layer_context_ops::can_edit(
                doc,
                (#[trigger] layers[i]).id,
            );
        assert(targets.contains(layers[i].id));
    } else {
        assert forall|target: NodeId| #[trigger]
            targets.contains(target) && before.nodes.dom().contains(
                target,
            ) implies crate::layer_context_ops::can_edit(doc, target) by {
            assert(listed(layers, target));
        }
        let after = crate::operations::all_applied(before, r->Ok_0@);
        assert forall|a: NodeId, b: NodeId|
            targets.contains(a) && targets.contains(b) && before.nodes.dom().contains(a)
                && before.nodes.dom().contains(b) && before.nodes[a].parent
                == before.nodes[b].parent && before.nodes[a].index.rank
                < before.nodes[b].index.rank implies (#[trigger] after.nodes[a]).index.rank < (
        #[trigger] after.nodes[b]).index.rank by {
            assert(listed(layers, a) && listed(layers, b));
            let j = choose|k: int| 0 <= k < layers.len() && (#[trigger] layers[k]).id == a;
            let k = choose|k: int| 0 <= k < layers.len() && (#[trigger] layers[k]).id == b;
            assert(layers[j] == before.nodes[a] && layers[k] == before.nodes[b]);
            if front {
                if k < j {
                    assert(crate::layer_moves::not_behind(placed[k], placed[j]));
                }
                assert(j < k);
            } else {
                if j < k {
                    assert(crate::layer_moves::not_behind(placed[n - 1 - k], placed[n - 1 - j]));
                }
                assert(k < j);
            }
        }
        assert forall|layer: NodeId|
            before.nodes.dom().contains(layer) && !targets.contains(layer) implies !(
        #[trigger] listed(layers, layer)) by {
            if listed(layers, layer) {
                let k = choose|k: int| 0 <= k < layers.len() && (#[trigger] layers[k]).id == layer;
                assert(targets.contains(layers[k].id));
            }
        }
        assert forall|target: NodeId, other: NodeId|
            targets.contains(target) && !targets.contains(other) && before.nodes.dom().contains(
                target,
            ) && before.nodes.dom().contains(other) && before.nodes[target].parent
                == before.nodes[other].parent implies if front {
            (#[trigger] after.nodes[other]).index.rank < (
            #[trigger] after.nodes[target]).index.rank
        } else {
            after.nodes[target].index.rank < after.nodes[other].index.rank
        } by {
            assert(listed(layers, target) && !listed(layers, other));
            let k = choose|k: int| 0 <= k < layers.len() && (#[trigger] layers[k]).id == target;
            assert(layers[k] == before.nodes[target]);
        }
    }
}

// ---------------------------------------------------------------------------
// Moving to a page
// ---------------------------------------------------------------------------

/// The key for a new child lies behind all children.
proof fn lemma_next_key(nodes: Map<NodeId, CanvasNode>, parent: Option<NodeId>)
    requires
        nodes.dom().finite(),
        forall|other: NodeId| #[trigger]
            nodes.dom().contains(other) ==> i64::MIN < nodes[other].index.rank < i64::MAX,
    ensures
        ({
            let key = crate::content_walk::next_key(nodes, parent);
            &&& forall|other: NodeId| #[trigger]
                nodes.dom().contains(other) && nodes[other].parent == parent
                    ==> nodes[other].index.rank < key.rank
            &&& key.rank == 0 || exists|other: NodeId| #[trigger]
                nodes.dom().contains(other) && key.rank == nodes[other].index.rank + 1
        }),
{
    let siblings = nodes.dom().filter(|other: NodeId| nodes[other].parent == parent);
    vstd::set_lib::lemma_len_subset(siblings, nodes.dom());
    assert forall|other: NodeId| #[trigger]
        nodes.dom().contains(other) && nodes[other].parent == parent implies siblings.contains(
        other,
    ) by {}
    if siblings.len() == 0 {
        assert(siblings =~= Set::<NodeId>::empty());
    } else {
        let edge = lemma_edge(nodes, siblings, true);
        assert(nodes.dom().contains(edge));
        assert(crate::content_walk::is_extreme(nodes, parent, true, nodes[edge].index));
        crate::content_walk::lemma_extreme_unique(nodes, parent, true, nodes[edge].index);
    }
}

/// What a move to the end of a page makes of a document.
pub open spec fn moved_there(
    before: Content,
    after: Content,
    page: NodeId,
    ids: Seq<NodeId>,
    moved: Seq<Option<Transform>>,
) -> bool {
    &&& after == (Content { nodes: after.nodes, ..before })
    &&& after.nodes.dom() == before.nodes.dom()
    &&& forall|k: int|
        0 <= k < ids.len() ==> {
            &&& before.nodes.dom().contains(#[trigger] ids[k])
            &&& k < moved.len()
            &&& moved[k] is Some
            &&& after.nodes[ids[k]] == (CanvasNode {
                parent: Some(page),
                index: after.nodes[ids[k]].index,
                transform: moved[k]->0,
                ..before.nodes[ids[k]]
            })
        }
    &&& forall|id: NodeId|
        before.nodes.dom().contains(id) && !ids.contains(id) ==> #[trigger] after.nodes[id]
            == before.nodes[id]
    &&& forall|j: int, k: int|
        0 <= j < k < ids.len() ==> after.nodes[#[trigger] ids[j]].index.rank
            < after.nodes[#[trigger] ids[k]].index.rank
    &&& forall|k: int, id: NodeId|
        0 <= k < ids.len() && before.nodes.dom().contains(id) && !ids.contains(id)
            && before.nodes[id].parent == Some(page) ==> (#[trigger] after.nodes[id]).index.rank
            < after.nodes[#[trigger] ids[k]].index.rank
}

proof fn lemma_moved(
    content: Content,
    pages: Seq<NodeId>,
    page: NodeId,
    page_known: bool,
    ids: Seq<NodeId>,
    moved: Seq<Option<Transform>>,
)
    requires
        crate::operations::filed(content),
        content.nodes.dom().finite(),
        has_room(content, ids.len() as int),
        forall|i: int, j: int| 0 <= i < j < ids.len() ==> #[trigger] ids[i] != #[trigger] ids[j],
    ensures
        crate::layer_moves::moved_layers(content, pages, page, page_known, ids, moved) matches Ok(
            operations,
        ) ==> crate::operations::carried(content, operations) && moved_there(
            content,
            crate::operations::all_applied(content, operations),
            page,
            ids,
            moved,
        ),
    decreases ids.len(),
{
    reveal_with_fuel(crate::layer_moves::moved_layers, 2);
    let r = crate::layer_moves::moved_layers(content, pages, page, page_known, ids, moved);
    if ids.len() > 0 && r is Ok {
        let id = ids[0];
        let rest = ids.drop_first();
        let later = moved.drop_first();
        let pair = crate::layer_moves::move_pair(content, id, page, moved[0]->0);
        lemma_one_step(content, pair[0]);
        let half = crate::operations::applied(content, pair[0]);
        lemma_one_step(half, pair[1]);
        assert(pair =~= seq![pair[0]] + seq![pair[1]]);
        lemma_in_turn(content, seq![pair[0]], seq![pair[1]]);
        let next = crate::operations::all_applied(content, pair);
        lemma_next_key(content.nodes, Some(page));
        let key = crate::content_walk::next_key(content.nodes, Some(page));
        assert(next.nodes.dom() =~= content.nodes.dom());
        assert(next.nodes =~= content.nodes.insert(
            id,
            CanvasNode {
                parent: Some(page),
                index: key,
                transform: moved[0]->0,
                ..content.nodes[id]
            },
        ));
        assert(crate::operations::filed(next));
        assert forall|i: int, j: int| 0 <= i < j < rest.len() implies #[trigger] rest[i]
            != #[trigger] rest[j] by {
            assert(rest[i] == ids[i + 1] && rest[j] == ids[j + 1]);
        }
        assert(has_room(next, rest.len() as int)) by {
            assert(content.nodes.dom().contains(id));
            assert forall|other: NodeId| #[trigger] next.nodes.dom().contains(other) implies i64::MIN
                + rest.len() < next.nodes[other].index.rank < i64::MAX - rest.len() by {
                assert(content.nodes.dom().contains(other));
            }
        }
        lemma_moved(next, pages, page, page_known, rest, later);
        let more = crate::layer_moves::moved_layers(next, pages, page, page_known, rest, later)->Ok_0;
        lemma_in_turn(content, pair, more);
        let after = crate::operations::all_applied(next, more);
        assert(!rest.contains(id)) by {
            if rest.contains(id) {
                let k = choose|k: int| 0 <= k < rest.len() && rest[k] == id;
                assert(ids[k + 1] == id);
            }
        }
        assert(after.nodes[id] == next.nodes[id]);
        assert forall|other: NodeId| ids.contains(other) <==> other == id || #[trigger] rest.contains(
            other,
        ) by {
            if ids.contains(other) {
                let k = choose|k: int| 0 <= k < ids.len() && ids[k] == other;
                if k > 0 {
                    assert(rest[k - 1] == other);
                }
            }
            if rest.contains(other) {
                let k = choose|k: int| 0 <= k < rest.len() && rest[k] == other;
                assert(ids[k + 1] == other);
            }
            assert(ids[0] == id);
        }
        assert forall|k: int| 0 <= k < ids.len() implies {
            &&& content.nodes.dom().contains(#[trigger] ids[k])
            &&& k < moved.len()
            &&& moved[k] is Some
            &&& after.nodes[ids[k]] == (CanvasNode {
                parent: Some(page),
                index: after.nodes[ids[k]].index,
                transform: moved[k]->0,
                ..content.nodes[ids[k]]
            })
        } by {
            if k > 0 {
                assert(ids[k] == rest[k - 1]);
                assert(moved[k] == later[k - 1]);
            }
        }
        assert forall|other: NodeId|
            content.nodes.dom().contains(other) && !ids.contains(
                other,
            ) implies #[trigger] after.nodes[other] == content.nodes[other] by {
            assert(!rest.contains(other));
        }
        assert forall|j: int, k: int| 0 <= j < k < ids.len() implies after.nodes[
            #[trigger] ids[j]].index.rank < after.nodes[#[trigger] ids[k]].index.rank by {
            assert(ids[k] == rest[k - 1]);
            if j > 0 {
                assert(ids[j] == rest[j - 1]);
            } else {
                assert(next.nodes[id].parent == Some(page));
                assert(after.nodes[id].index.rank < after.nodes[rest[k - 1]].index.rank);
            }
        }
        assert forall|k: int, other: NodeId|
            0 <= k < ids.len() && content.nodes.dom().contains(other) && !ids.contains(other)
                && content.nodes[other].parent == Some(
                page,
            ) implies (#[trigger] after.nodes[other]).index.rank < after.nodes[
            #[trigger] ids[k]].index.rank by {
            assert(!rest.contains(other));
            assert(next.nodes[other] == content.nodes[other]);
            if k > 0 {
                assert(ids[k] == rest[k - 1]);
            }
        }
    }
}

/// Moving to a page: every layer that is meant ends up on that page, behind what is
/// there and in the order it is named in, with the transform that keeps it in place;
/// no other layer changes.
pub proof fn lemma_move_ends_on_page(
    doc: Doc,
    id: NodeId,
    page: NodeId,
    selection_roots: Seq<NodeId>,
    page_known: bool,
    moved: Seq<Option<Transform>>,
    r: Result<Vec<Operation>, LayerError>,
)
    requires
        doc.well_formed(),
        crate::layer_moves::outcome_of(r) == crate::layer_moves::move_outcome(
            doc,
            id,
            page,
            selection_roots,
            page_known,
            moved,
        ),
        forall|i: int, j: int|
            0 <= i < j < meant(doc, id, selection_roots).len() ==> #[trigger] meant(
                doc,
                id,
                selection_roots,
            )[i] != #[trigger] meant(doc, id, selection_roots)[j],
        has_room(doc.content(), meant(doc, id, selection_roots).len() as int),
    ensures
        r is Ok ==> doc.pages@.contains(page),
        r matches Ok(operations) ==> crate::operations::carried(doc.content(), operations@)
            && moved_there(
            doc.content(),
            crate::operations::all_applied(doc.content(), operations@),
            page,
            meant(doc, id, selection_roots),
            moved,
        ),
{
    crate::operations::lemma_doc_filed(doc);
    crate::keyed::lemma_keyed_len(doc.nodes@, crate::operations::node_key());
    lemma_moved(
        doc.content(),
        doc.pages@,
        page,
        page_known,
        meant(doc, id, selection_roots),
        moved,
    );
}

// ---------------------------------------------------------------------------
// Commands on one layer
// ---------------------------------------------------------------------------

/// The operations can be carried out and nothing but one layer changes.
pub open spec fn only_changes(doc: Doc, id: NodeId, operations: Seq<Operation>) -> bool {
    let before = doc.content();
    let after = crate::operations::all_applied(before, operations);
    &&& crate::operations::carried(before, operations)
    &&& after == (Content { nodes: before.nodes.insert(id, after.nodes[id]), ..before })
}

proof fn lemma_replaced(doc: Doc, id: NodeId, operations: Seq<Operation>, data: NodeData)
    requires
        doc.well_formed(),
        doc.content().nodes.dom().contains(id),
        operations.len() == 1,
        crate::layer_context_ops::replaces(operations[0], doc.content().nodes[id], data),
    ensures
        only_changes(doc, id, operations),
        ({
            let after = crate::operations::all_applied(doc.content(), operations).nodes[id];
            &&& after == (CanvasNode { data: after.data, ..doc.content().nodes[id] })
            &&& *after.data == data
        }),
{
    crate::operations::lemma_find_is_content(doc, id);
    let before = doc.content();
    assert(operations =~= seq![operations[0]]);
    lemma_one_step(before, operations[0]);
    let after = crate::operations::all_applied(before, operations);
    assert(after.nodes =~= before.nodes.insert(id, after.nodes[id]));
}

/// A mask becomes no mask, and a layer that is none becomes one; nothing else
/// changes.
pub proof fn lemma_mask_turns(
    doc: Doc,
    id: NodeId,
    facts: SimpleFacts,
    r: Result<Vec<Operation>, LayerError>,
)
    requires
        doc.well_formed(),
        crate::layer_context_ops::can_edit(doc, id),
        crate::layer_simple::simple_outcome(doc, id, LayerAction::UseAsMask, facts, r),
    ensures
        r matches Ok(operations) && only_changes(doc, id, operations@)
            && crate::operations::all_applied(doc.content(), operations@).nodes[id] == (
        CanvasNode { is_mask: !doc.content().nodes[id].is_mask, ..doc.content().nodes[id] }),
{
    crate::operations::lemma_find_is_content(doc, id);
    let before = doc.content();
    lemma_one_step(before, r->Ok_0@[0]);
    assert(r->Ok_0@ =~= seq![r->Ok_0@[0]]);
    let after = crate::operations::all_applied(before, r->Ok_0@);
    assert(after.nodes =~= before.nodes.insert(id, after.nodes[id]));
}

/// A reset instance draws the same component with nothing of its own, in the size of
/// its main component where that is known; nothing else changes, and only instances
/// are reset.
pub proof fn lemma_reset_clears(
    doc: Doc,
    id: NodeId,
    facts: SimpleFacts,
    r: Result<Vec<Operation>, LayerError>,
)
    requires
        doc.well_formed(),
        crate::layer_context_ops::can_edit(doc, id),
        crate::layer_simple::simple_outcome(doc, id, LayerAction::ResetInstance, facts, r),
    ensures
        r is Ok <==> *doc.content().nodes[id].data is Instance,
        r matches Ok(operations) ==> only_changes(doc, id, operations@) && ({
            let before = doc.content().nodes[id];
            let after = crate::operations::all_applied(doc.content(), operations@).nodes[id];
            &&& after == (CanvasNode { data: after.data, ..before })
            &&& *after.data matches NodeData::Instance(now) && {
                &&& now.component == before.data->Instance_0.component
                &&& now.overrides@.len() == 0
                &&& now.prop_values@.len() == 0
                &&& now.derived@.len() == 0
                &&& facts.master_size is Some ==> now.local_size == facts.master_size->0
                &&& facts.master_size is None ==> now.local_size
                    == before.data->Instance_0.local_size
            }
        }),
{
    crate::operations::lemma_find_is_content(doc, id);
    if let Ok(operations) = r {
        let before = doc.content();
        lemma_one_step(before, operations@[0]);
        assert(operations@ =~= seq![operations@[0]]);
        let after = crate::operations::all_applied(before, operations@);
        assert(after.nodes =~= before.nodes.insert(id, after.nodes[id]));
    }
}

/// Wrapping is turned over: a frame that wraps no longer does and one that does not
/// does now, and all else of its layout stays. A frame without a layout gets a
/// horizontal one that wraps.
pub proof fn lemma_wrap_turns(
    doc: Doc,
    id: NodeId,
    group: GroupNode,
    r: Result<Vec<Operation>, LayerError>,
)
    requires
        doc.well_formed(),
        crate::layer_context_ops::can_edit(doc, id),
        *doc.content().nodes[id].data == NodeData::Group(group),
        crate::layer_context_ops::wrap_outcome(doc, id, r),
    ensures
        r matches Ok(operations) && only_changes(doc, id, operations@) && ({
            let before = doc.content().nodes[id];
            let after = crate::operations::all_applied(doc.content(), operations@).nodes[id];
            &&& after == (CanvasNode { data: after.data, ..before })
            &&& *after.data matches NodeData::Group(now) && now == (GroupNode {
                auto_layout: now.auto_layout,
                ..group
            }) && (now.auto_layout matches Some(layout) && match group.auto_layout {
                Some(was) => layout.wrap == !was.wrap && layout == (AutoLayout {
                    wrap: layout.wrap,
                    ..was
                }),
                None => layout.wrap && layout.mode is Horizontal && layout.child_layout,
            })
        }),
{
    crate::operations::lemma_find_is_content(doc, id);
    let layout = match group.auto_layout {
        Some(layout) => layout,
        None => AutoLayout::plain(LayoutMode::Horizontal),
    };
    lemma_replaced(
        doc,
        id,
        r->Ok_0@,
        NodeData::Group(
            GroupNode { auto_layout: Some(AutoLayout { wrap: !layout.wrap, ..layout }), ..group },
        ),
    );
}

/// A group gets the layout mode that is asked for and keeps the rest of its layout,
/// or loses its layout; it gets the size it shows where it has none of its own.
pub proof fn lemma_layout_command_lands(
    doc: Doc,
    id: NodeId,
    mode: Option<LayoutMode>,
    selection_roots: Seq<NodeId>,
    facts: crate::layer_context_ops::LayoutFacts,
    group: GroupNode,
    r: Result<Vec<Operation>, LayerError>,
)
    requires
        doc.well_formed(),
        crate::layer_context_ops::auto_layout_outcome(doc, id, mode, selection_roots, facts, r),
        doc.content().nodes.dom().contains(id),
        *doc.content().nodes[id].data == NodeData::Group(group),
        r is Ok,
    ensures
        only_changes(doc, id, r->Ok_0@),
        ({
            let before = doc.content().nodes[id];
            let after = crate::operations::all_applied(doc.content(), r->Ok_0@).nodes[id];
            &&& after == (CanvasNode { data: after.data, ..before })
            &&& *after.data matches NodeData::Group(now) && {
                &&& now == (GroupNode {
                    auto_layout: now.auto_layout,
                    local_size: now.local_size,
                    ..group
                })
                &&& now.auto_layout is Some <==> mode is Some
                &&& mode is Some ==> now.auto_layout->0.mode == mode->0
                &&& mode is Some && group.auto_layout is Some ==> now.auto_layout == Some(
                    AutoLayout { mode: mode->0, ..group.auto_layout->0 },
                )
                &&& now.local_size == if group.local_size is None && group.clip_size is None {
                    facts.local_size
                } else {
                    group.local_size
                }
            }
        }),
{
    crate::operations::lemma_find_is_content(doc, id);
    lemma_replaced(
        doc,
        id,
        r->Ok_0@,
        NodeData::Group(crate::layer_context_ops::laid_out(group, mode, facts.local_size)),
    );
}

/// A cropped picture shows the window that is asked for, or all of itself, keeps its
/// width and takes the new height; nothing else changes. Only a positive ratio is
/// cropped to.
pub proof fn lemma_crop_lands(
    doc: Doc,
    id: NodeId,
    aspect: Option<Scalar>,
    window: CropWindow,
    height: Scalar,
    bitmap: BitmapNode,
    r: Result<Vec<Operation>, LayerError>,
)
    requires
        doc.well_formed(),
        crate::layer_context_ops::can_edit(doc, id),
        *doc.content().nodes[id].data == NodeData::Bitmap(bitmap),
        crate::layer_context_ops::crop_outcome(doc, id, aspect, window, height, r),
    ensures
        r is Ok <==> (aspect matches Some(ratio) ==> 0 < ratio.rank() < 0x7ff0_0000_0000_0000),
        r matches Ok(operations) ==> only_changes(doc, id, operations@) && ({
            let before = doc.content().nodes[id];
            let after = crate::operations::all_applied(doc.content(), operations@).nodes[id];
            &&& after == (CanvasNode { data: after.data, ..before })
            &&& *after.data matches NodeData::Bitmap(now) && now == (BitmapNode {
                crop: (if aspect is Some {
                    Some(window)
                } else {
                    None
                }),
                local_size: Size { width: bitmap.local_size.width, height: height },
                ..bitmap
            })
        }),
{
    crate::operations::lemma_find_is_content(doc, id);
    if let Ok(operations) = r {
        lemma_replaced(
            doc,
            id,
            operations@,
            NodeData::Bitmap(
                BitmapNode {
                    crop: (if aspect is Some {
                        Some(window)
                    } else {
                        None
                    }),
                    local_size: Size { height: height, ..bitmap.local_size },
                    ..bitmap
                },
            ),
        );
    }
}

/// A picture is cropped to a window of itself: one that has a size, starts inside
/// and fits. It then shows that window and keeps its width.
pub proof fn lemma_crop_window_lands(
    doc: Doc,
    id: NodeId,
    percent: CropWindow,
    fits: bool,
    fractions: CropWindow,
    height: Scalar,
    bitmap: BitmapNode,
    r: Result<Vec<Operation>, LayerError>,
)
    requires
        doc.well_formed(),
        crate::layer_context_ops::can_edit(doc, id),
        *doc.content().nodes[id].data == NodeData::Bitmap(bitmap),
        crate::layer_context_ops::crop_rectangle_outcome(
            doc,
            id,
            percent,
            fits,
            fractions,
            height,
            r,
        ),
    ensures
        r is Ok <==> fits && 0 <= percent.x.rank() < 0x7ff0_0000_0000_0000 && 0 <= percent.y.rank()
            < 0x7ff0_0000_0000_0000 && 0 < percent.width.rank() < 0x7ff0_0000_0000_0000 && 0
            < percent.height.rank() < 0x7ff0_0000_0000_0000,
        r matches Ok(operations) ==> only_changes(doc, id, operations@) && ({
            let before = doc.content().nodes[id];
            let after = crate::operations::all_applied(doc.content(), operations@).nodes[id];
            &&& after == (CanvasNode { data: after.data, ..before })
            &&& *after.data matches NodeData::Bitmap(now) && now == (BitmapNode {
                crop: Some(fractions),
                local_size: Size { width: bitmap.local_size.width, height: height },
                ..bitmap
            })
        }),
{
    crate::operations::lemma_find_is_content(doc, id);
    if let Ok(operations) = r {
        lemma_replaced(
            doc,
            id,
            operations@,
            NodeData::Bitmap(
                BitmapNode {
                    crop: Some(fractions),
                    local_size: Size { height: height, ..bitmap.local_size },
                    ..bitmap
                },
            ),
        );
    }
}

// ---------------------------------------------------------------------------
// Flips and conversions
// ---------------------------------------------------------------------------

proof fn lemma_flipped(
    doc: Doc,
    ids: Seq<NodeId>,
    reflected: Seq<Option<Transform>>,
)
    requires
        doc.well_formed(),
        forall|i: int| 0 <= i < ids.len() ==> doc.content().nodes.dom().contains(#[trigger] ids[i]),
        forall|i: int, j: int| 0 <= i < j < ids.len() ==> #[trigger] ids[i] != #[trigger] ids[j],
    ensures
        crate::layer_simple::flips(doc.nodes@, ids, reflected) matches Ok(operations) ==> ({
            let before = doc.content();
            let after = crate::operations::all_applied(before, operations);
            &&& crate::operations::carried(before, operations)
            &&& after == (Content { nodes: after.nodes, ..before })
            &&& after.nodes.dom() == before.nodes.dom()
            &&& forall|k: int|
                0 <= k < ids.len() ==> k < reflected.len() && reflected[k] is Some
                    && after.nodes[#[trigger] ids[k]] == (CanvasNode {
                    transform: reflected[k]->0,
                    ..before.nodes[ids[k]]
                })
            &&& forall|id: NodeId|
                before.nodes.dom().contains(id) && !ids.contains(id) ==> #[trigger] after.nodes[id]
                    == before.nodes[id]
        }),
    decreases ids.len(),
{
    reveal_with_fuel(crate::layer_simple::flips, 2);
    let r = crate::layer_simple::flips(doc.nodes@, ids, reflected);
    if ids.len() > 0 && r is Ok {
        let rest = ids.drop_last();
        let at = ids.len() - 1;
        lemma_flipped(doc, rest, reflected);
        let earlier = crate::layer_simple::flips(doc.nodes@, rest, reflected)->Ok_0;
        let operations = r->Ok_0;
        assert(operations.drop_last() =~= earlier);
        let before = doc.content();
        crate::operations::lemma_find_is_content(doc, ids[at]);
        let middle = crate::operations::all_applied(before, earlier);
        let after = crate::operations::all_applied(before, operations);
        assert(after == crate::operations::applied(middle, operations.last()));
        assert(!rest.contains(ids[at])) by {
            if rest.contains(ids[at]) {
                let k = choose|k: int| 0 <= k < rest.len() && rest[k] == ids[at];
                assert(ids[k] == ids[at]);
            }
        }
        assert(middle.nodes[ids[at]] == before.nodes[ids[at]]);
        assert(after.nodes.dom() =~= before.nodes.dom());
        assert forall|k: int| 0 <= k < ids.len() implies k < reflected.len() && reflected[k] is Some
            && after.nodes[#[trigger] ids[k]] == (CanvasNode {
            transform: reflected[k]->0,
            ..before.nodes[ids[k]]
        }) by {
            if k < at {
                assert(rest[k] == ids[k]);
                assert(ids[k] != ids[at]);
            }
        }
        assert forall|id: NodeId|
            before.nodes.dom().contains(id) && !ids.contains(id) implies #[trigger] after.nodes[id]
            == before.nodes[id] by {
            assert(ids[at] == ids.last());
            if rest.contains(id) {
                let k = choose|k: int| 0 <= k < rest.len() && rest[k] == id;
                assert(ids[k] == id);
            }
        }
    }
}

/// Flipping: every layer that is meant takes its own mirrored transform, and nothing
/// else changes.
pub proof fn lemma_flip_mirrors(
    doc: Doc,
    id: NodeId,
    action: LayerAction,
    facts: SimpleFacts,
    r: Result<Vec<Operation>, LayerError>,
)
    requires
        doc.well_formed(),
        action is FlipHorizontal || action is FlipVertical,
        crate::layer_simple::simple_outcome(doc, id, action, facts, r),
        forall|i: int, j: int|
            0 <= i < j < meant(doc, id, facts.selection_roots@).len() ==> #[trigger] meant(
                doc,
                id,
                facts.selection_roots@,
            )[i] != #[trigger] meant(doc, id, facts.selection_roots@)[j],
    ensures
        r matches Ok(operations) ==> ({
            let before = doc.content();
            let after = crate::operations::all_applied(before, operations@);
            let ids = meant(doc, id, facts.selection_roots@);
            &&& crate::operations::carried(before, operations@)
            &&& after == (Content { nodes: after.nodes, ..before })
            &&& after.nodes.dom() == before.nodes.dom()
            &&& forall|k: int|
                0 <= k < ids.len() ==> k < facts.reflected@.len() && facts.reflected@[k] is Some
                    && after.nodes[#[trigger] ids[k]] == (CanvasNode {
                    transform: facts.reflected@[k]->0,
                    ..before.nodes[ids[k]]
                })
            &&& forall|other: NodeId|
                before.nodes.dom().contains(other) && !ids.contains(other)
                    ==> #[trigger] after.nodes[other] == before.nodes[other]
        }),
{
    let ids = meant(doc, id, facts.selection_roots@);
    if r is Ok {
        assert forall|i: int| 0 <= i < ids.len() implies doc.content().nodes.dom().contains(
            #[trigger] ids[i],
        ) by {
            assert(crate::layer_context_ops::can_edit(doc, ids[i]));
            crate::operations::lemma_find_is_content(doc, ids[i]);
        }
        lemma_flipped(doc, ids, facts.reflected@);
    }
}

/// A group as a frame clips, and as a section neither clips nor lays out. Either way
/// it has a size: the one it clips to, or else the box that it shows; the rest of it
/// stays.
pub proof fn lemma_conversion_of_group(
    group: GroupNode,
    shown: Option<crate::layer_simple::LocalBox>,
)
    ensures
        ({
            let frame = crate::layer_simple::converted(group, shown, false);
            let section = crate::layer_simple::converted(group, shown, true);
            &&& frame.clip_size is Some
            &&& section.clip_size is None
            &&& section.auto_layout is None
            &&& frame.auto_layout == group.auto_layout
            &&& section.local_size == frame.clip_size
            &&& group.clip_size is Some ==> frame == group
            &&& group.clip_size is None && shown is Some ==> frame.clip_size == Some(
                shown->0.size,
            ) && frame.local_size == Some(shown->0.size)
            &&& group.clip_size is None && shown is None ==> frame.clip_size == Some(
                Size {
                    width: Scalar { bits: 0x4059_0000_0000_0000 },
                    height: Scalar { bits: 0x4059_0000_0000_0000 },
                },
            )
            &&& frame == (GroupNode {
                clip_size: frame.clip_size,
                local_size: frame.local_size,
                ..group
            })
            &&& section == (GroupNode {
                clip_size: None,
                local_size: section.local_size,
                auto_layout: None,
                ..group
            })
        }),
{
}

/// The contents of a group that becomes a frame or a section move where its box does
/// not start at the origin.
pub open spec fn starts_elsewhere(
    group: GroupNode,
    shown: Option<crate::layer_simple::LocalBox>,
) -> bool {
    group.clip_size is None && (shown matches Some(shown) && !(!shown.min_x.nan()
        && shown.min_x.rank() == 0 && !shown.min_y.nan() && shown.min_y.rank() == 0))
}

/// The first of the children have been moved, and nothing else but the group itself.
spec fn moved_children(
    before: Content,
    after: Content,
    id: NodeId,
    kids: Seq<CanvasNode>,
    facts: SimpleFacts,
    k: int,
) -> bool {
    &&& after == (Content { nodes: after.nodes, ..before })
    &&& after.nodes.dom() =~= before.nodes.dom()
    &&& after.nodes[id] == (CanvasNode { transform: facts.shifted, ..before.nodes[id] })
    &&& forall|i: int|
        0 <= i < kids.len() ==> after.nodes[(#[trigger] kids[i]).id] == if i < k {
            CanvasNode { transform: facts.shifted_children@[i], ..kids[i] }
        } else {
            kids[i]
        }
    &&& forall|other: NodeId|
        before.nodes.dom().contains(other) && other != id && before.nodes[other].parent != Some(id)
            ==> #[trigger] after.nodes[other] == before.nodes[other]
}

proof fn lemma_children_moved(
    doc: Doc,
    id: NodeId,
    kids: Seq<CanvasNode>,
    facts: SimpleFacts,
    operations: Seq<Operation>,
    k: int,
)
    requires
        doc.well_formed(),
        doc.content().nodes.dom().contains(id),
        doc.content().nodes[id].parent != Some(id),
        kids == crate::scene::children(doc.nodes@, Some(id)),
        operations == crate::layer_simple::conversion_moves(
            doc.content().nodes[id],
            kids,
            facts,
        ),
        0 <= k <= kids.len(),
    ensures
        crate::operations::carried(doc.content(), operations.take(1 + k)),
        moved_children(
            doc.content(),
            crate::operations::all_applied(doc.content(), operations.take(1 + k)),
            id,
            kids,
            facts,
            k,
        ),
    decreases k,
{
    let before = doc.content();
    crate::operations::lemma_find_is_content(doc, id);
    crate::content_walk::lemma_children_distinct(doc, Some(id));
    assert forall|i: int| 0 <= i < kids.len() implies before.nodes.dom().contains(
        (#[trigger] kids[i]).id,
    ) && before.nodes[kids[i].id] == kids[i] && kids[i].parent == Some(id) by {
        crate::content_walk::lemma_child_found(doc, Some(id), i);
        crate::operations::lemma_find_is_content(doc, kids[i].id);
    }
    if k == 0 {
        assert(operations.take(1) =~= seq![operations[0]]);
        lemma_one_step(before, operations[0]);
    } else {
        lemma_children_moved(doc, id, kids, facts, operations, k - 1);
        let part = operations.take(1 + k);
        assert(part.drop_last() =~= operations.take(k));
        let middle = crate::operations::all_applied(before, operations.take(k));
        assert(part.last() == operations[k]);
        assert(operations[k] == (Operation::SetTransform {
            id: kids[k - 1].id,
            old: kids[k - 1].transform,
            new: facts.shifted_children@[k - 1],
        }));
        let after = crate::operations::applied(middle, operations[k]);
        assert(after == crate::operations::all_applied(before, part));
        assert(middle.nodes[kids[k - 1].id] == kids[k - 1]);
        assert forall|i: int| 0 <= i < kids.len() implies after.nodes[(#[trigger] kids[i]).id]
            == if i < k {
            CanvasNode { transform: facts.shifted_children@[i], ..kids[i] }
        } else {
            kids[i]
        } by {
            if i < k - 1 {
                assert(kids[i].id != kids[k - 1].id);
            } else if i > k - 1 {
                assert(kids[k - 1].id != kids[i].id);
            }
        }
    }
}

/// Converting a group: the metadata say what it has become, its contents keep showing
/// where they were, and nothing else but its size, its clipping and its layout
/// changes. No group stands in itself.
#[verifier::spinoff_prover]
#[verifier::rlimit(60)]
pub proof fn lemma_conversion_lands(
    doc: Doc,
    id: NodeId,
    section: bool,
    facts: SimpleFacts,
    group: GroupNode,
    r: Result<Vec<Operation>, LayerError>,
)
    requires
        doc.well_formed(),
        crate::layer_simple::simple_outcome(
            doc,
            id,
            (if section {
                LayerAction::ConvertToSection
            } else {
                LayerAction::ConvertToFrame
            }),
            facts,
            r,
        ),
        doc.content().nodes.dom().contains(id),
        doc.content().nodes[id].parent != Some(id),
        *doc.content().nodes[id].data == NodeData::Group(group),
        r is Ok,
    ensures
        ({
            let before = doc.content();
            let operations = r->Ok_0@;
            let after = crate::operations::all_applied(before, operations);
            let now = after.nodes[id];
            let kids = crate::scene::children(doc.nodes@, Some(id));
            let moves = starts_elsewhere(group, facts.local_box);
            &&& crate::operations::carried(before, operations)
            &&& after == (Content { nodes: after.nodes, ..before })
            &&& after.nodes.dom() == before.nodes.dom()
            &&& now == (CanvasNode {
                data: now.data,
                meta: now.meta,
                transform: if moves {
                    facts.shifted
                } else {
                    before.nodes[id].transform
                },
                ..before.nodes[id]
            })
            &&& *now.data matches NodeData::Group(new) && {
                &&& section ==> new.clip_size is None && new.auto_layout is None
                &&& !section ==> new.clip_size is Some && new.auto_layout == group.auto_layout
                &&& new.local_size is Some || group.clip_size is Some
            }
            &&& crate::meta::json_texts(now.meta).dom().contains("fanta_kind"@)
            &&& crate::meta::json_texts(now.meta)["fanta_kind"@] == if section {
                "section"@
            } else {
                "frame"@
            }
            &&& forall|i: int|
                0 <= i < kids.len() ==> after.nodes[(#[trigger] kids[i]).id] == if moves {
                    CanvasNode { transform: facts.shifted_children@[i], ..kids[i] }
                } else {
                    kids[i]
                }
            &&& forall|other: NodeId|
                before.nodes.dom().contains(other) && other != id && before.nodes[other].parent
                    != Some(id) ==> #[trigger] after.nodes[other] == before.nodes[other]
        }),
{
    let before = doc.content();
    let operations = r->Ok_0@;
    let node = before.nodes[id];
    let kids = crate::scene::children(doc.nodes@, Some(id));
    crate::operations::lemma_find_is_content(doc, id);
    reveal_strlit("fanta_kind");
    reveal_strlit("clip_content");
    assert("fanta_kind"@.len() != "clip_content"@.len());
    assert forall|i: int| 0 <= i < kids.len() implies before.nodes.dom().contains(
        (#[trigger] kids[i]).id,
    ) && before.nodes[kids[i].id] == kids[i] && kids[i].id != id by {
        crate::content_walk::lemma_child_found(doc, Some(id), i);
        crate::operations::lemma_find_is_content(doc, kids[i].id);
    }
    let moves = starts_elsewhere(group, facts.local_box);
    assert(moves == crate::layer_simple::contents_move(group, facts.local_box));
    let lead = if moves {
        crate::layer_simple::conversion_moves(node, kids, facts)
    } else {
        Seq::empty()
    };
    let n = lead.len() as int;
    if moves {
        lemma_children_moved(doc, id, kids, facts, lead, kids.len() as int);
        assert(lead.take(1 + kids.len() as int) =~= lead);
    }
    assert(operations =~= lead + seq![operations[n]] + seq![operations[n + 1]]);
    let c1 = crate::operations::all_applied(before, lead);
    lemma_in_turn(before, lead, seq![operations[n]]);
    lemma_in_turn(before, lead + seq![operations[n]], seq![operations[n + 1]]);
    lemma_one_step(c1, operations[n]);
    let c2 = crate::operations::applied(c1, operations[n]);
    lemma_one_step(c2, operations[n + 1]);
    let after = crate::operations::applied(c2, operations[n + 1]);
    assert(after == crate::operations::all_applied(before, operations));
    assert(after.nodes.dom() =~= before.nodes.dom());
}

// ---------------------------------------------------------------------------
// Locks
// ---------------------------------------------------------------------------

/// The path leads upwards from a layer to one above it, parent by parent.
pub open spec fn leads_up(content: Content, id: NodeId, path: Seq<NodeId>) -> bool {
    &&& 0 < path.len() <= content.nodes.dom().len() + 1
    &&& path[0] == id
    &&& forall|i: int| 0 <= i < path.len() ==> content.nodes.dom().contains(#[trigger] path[i])
    &&& forall|i: int, j: int|
        0 <= i && j == i + 1 && j < path.len() ==> content.nodes[#[trigger] path[i]].parent == Some(
            #[trigger] path[j],
        )
}

proof fn lemma_path_above(
    nodes: Map<NodeId, CanvasNode>,
    id: NodeId,
    path: Seq<NodeId>,
    fuel: nat,
)
    requires
        0 < path.len() <= fuel + 1,
        path[0] == id,
        forall|i: int| 0 <= i < path.len() ==> nodes.dom().contains(#[trigger] path[i]),
        forall|i: int, j: int|
            0 <= i && j == i + 1 && j < path.len() ==> nodes[#[trigger] path[i]].parent == Some(
                #[trigger] path[j],
            ),
    ensures
        path.len() > 1 ==> {
            let above = crate::content_walk::above_within(nodes, id, fuel);
            path.len() - 2 < above.len() && above[path.len() - 2] == nodes[path.last()]
        },
    decreases fuel,
{
    if path.len() > 1 {
        let rest = path.drop_first();
        let parent = path[1];
        assert(nodes[path[0]].parent == Some(path[1]));
        let above = crate::content_walk::above_within(nodes, id, fuel);
        let higher = crate::content_walk::above_within(nodes, parent, (fuel - 1) as nat);
        assert(above =~= seq![nodes[parent]] + higher);
        if path.len() > 2 {
            lemma_path_above(nodes, parent, rest, (fuel - 1) as nat);
            assert(rest.last() == path.last());
            assert(above[path.len() - 2] == higher[rest.len() - 2]);
        }
    }
}

proof fn lemma_above_path(nodes: Map<NodeId, CanvasNode>, id: NodeId, fuel: nat, at: int) -> (path:
    Seq<NodeId>)
    requires
        nodes.dom().contains(id),
        0 <= at < crate::content_walk::above_within(nodes, id, fuel).len(),
    ensures
        path.len() == at + 2,
        at + 2 <= fuel + 1,
        path[0] == id,
        forall|i: int| 0 <= i < path.len() ==> nodes.dom().contains(#[trigger] path[i]),
        forall|i: int, j: int|
            0 <= i && j == i + 1 && j < path.len() ==> nodes[#[trigger] path[i]].parent == Some(
                #[trigger] path[j],
            ),
        nodes[path.last()] == crate::content_walk::above_within(nodes, id, fuel)[at],
    decreases fuel,
{
    let parent = nodes[id].parent->0;
    let above = crate::content_walk::above_within(nodes, id, fuel);
    let higher = crate::content_walk::above_within(nodes, parent, (fuel - 1) as nat);
    assert(above =~= seq![nodes[parent]] + higher);
    if at == 0 {
        seq![id, parent]
    } else {
        assert(above[at] == higher[at - 1]);
        let rest = lemma_above_path(nodes, parent, (fuel - 1) as nat, at - 1);
        let path = seq![id] + rest;
        assert(path.last() == rest.last());
        path
    }
}

/// A layer may be edited exactly where it is there, is no page, and neither it nor any
/// layer above it, up to any height, is locked.
pub proof fn lemma_lock_reaches_down(doc: Doc, id: NodeId)
    requires
        doc.well_formed(),
    ensures
        crate::layer_context_ops::can_edit(doc, id) <==> {
            &&& doc.content().nodes.dom().contains(id)
            &&& !doc.pages@.contains(id)
            &&& forall|path: Seq<NodeId>| #[trigger]
                leads_up(doc.content(), id, path)
                    ==> !doc.content().nodes[path.last()].flags.locked
        },
{
    let content = doc.content();
    let nodes = content.nodes;
    let fuel = nodes.dom().len();
    crate::layer_context_ops::lemma_can_edit_content(doc, id);
    crate::operations::lemma_find_is_content(doc, id);
    let above = crate::content_walk::above(nodes, id);
    if crate::layer_context_ops::can_edit(doc, id) {
        assert forall|path: Seq<NodeId>| #[trigger] leads_up(content, id, path) implies !nodes[
            path.last()].flags.locked by {
            lemma_path_above(nodes, id, path, fuel);
        }
    } else if nodes.dom().contains(id) && !doc.pages@.contains(id) {
        if nodes[id].flags.locked {
            assert(leads_up(content, id, seq![id]));
        } else {
            let at = choose|i: int| 0 <= i < above.len() && (#[trigger] above[i]).flags.locked;
            let path = lemma_above_path(nodes, id, fuel, at);
            assert(leads_up(content, id, path));
        }
    }
}

// ---------------------------------------------------------------------------
// Components that go away
// ---------------------------------------------------------------------------

/// The components drawn by layers that go away, the sets that lose a member, and what
/// stays in a set.
pub proof fn lemma_gone_with_layers(
    components: Seq<ComponentDef>,
    sets: Seq<ComponentSet>,
    members: Seq<ComponentId>,
    layers: Seq<NodeId>,
    gone: Seq<ComponentId>,
)
    ensures
        forall|def: ComponentDef| #[trigger]
            crate::layer_components::drawn_by(components, layers).contains(def)
                <==> components.contains(def) && layers.contains(def.root),
        forall|set: ComponentSet| #[trigger]
            crate::layer_components::losing_sets(sets, gone).contains(set) <==> sets.contains(set)
                && exists|i: int|
                0 <= i < set.members@.len() && gone.contains(#[trigger] set.members@[i]),
        forall|member: ComponentId| #[trigger]
            crate::layer_components::kept_members(members, gone).contains(member)
                <==> members.contains(member) && !gone.contains(member),
{
    lemma_drawn_by(components, layers);
    lemma_losing(sets, gone);
    lemma_kept(members, gone);
}

proof fn lemma_pushed<T>(list: Seq<T>, x: T)
    ensures
        list.push(x).contains(x),
        forall|y: T| #[trigger] list.push(x).contains(y) <==> y == x || list.contains(y),
{
    assert(list.push(x)[list.len() as int] == x);
    assert forall|y: T| #[trigger] list.push(x).contains(y) <==> y == x || list.contains(y) by {
        if list.contains(y) {
            let i = choose|i: int| 0 <= i < list.len() && list[i] == y;
            assert(list.push(x)[i] == y);
        }
    }
}

proof fn lemma_parted<T>(list: Seq<T>)
    requires
        list.len() > 0,
    ensures
        forall|y: T| #[trigger] list.contains(y) <==> y == list.last() || list.drop_last().contains(y),
{
    lemma_pushed(list.drop_last(), list.last());
    assert(list.drop_last().push(list.last()) =~= list);
}

proof fn lemma_drawn_by(components: Seq<ComponentDef>, layers: Seq<NodeId>)
    ensures
        forall|def: ComponentDef| #[trigger]
            crate::layer_components::drawn_by(components, layers).contains(def)
                <==> components.contains(def) && layers.contains(def.root),
    decreases components.len(),
{
    if components.len() > 0 {
        lemma_drawn_by(components.drop_last(), layers);
        lemma_parted(components);
        lemma_pushed(
            crate::layer_components::drawn_by(components.drop_last(), layers),
            components.last(),
        );
    }
}

proof fn lemma_losing(sets: Seq<ComponentSet>, gone: Seq<ComponentId>)
    ensures
        forall|set: ComponentSet| #[trigger]
            crate::layer_components::losing_sets(sets, gone).contains(set) <==> sets.contains(set)
                && exists|i: int|
                0 <= i < set.members@.len() && gone.contains(#[trigger] set.members@[i]),
    decreases sets.len(),
{
    if sets.len() > 0 {
        lemma_losing(sets.drop_last(), gone);
        lemma_parted(sets);
        lemma_pushed(
            crate::layer_components::losing_sets(sets.drop_last(), gone),
            sets.last(),
        );
    }
}

proof fn lemma_kept(members: Seq<ComponentId>, gone: Seq<ComponentId>)
    ensures
        forall|member: ComponentId| #[trigger]
            crate::layer_components::kept_members(members, gone).contains(member)
                <==> members.contains(member) && !gone.contains(member),
    decreases members.len(),
{
    if members.len() > 0 {
        lemma_kept(members.drop_last(), gone);
        lemma_parted(members);
        lemma_pushed(
            crate::layer_components::kept_members(members.drop_last(), gone),
            members.last(),
        );
    }
}

proof fn lemma_behind(
    nodes: Seq<CanvasNode>,
    ids: Seq<NodeId>,
    removed: Seq<NodeId>,
    components: Seq<ComponentId>,
)
    ensures
        forall|id: NodeId| #[trigger]
            crate::layer_components::left_behind(nodes, ids, removed, components).contains(id)
                <==> ids.contains(id) && !removed.contains(id) && (crate::scene::find(
                nodes,
                id,
            ) matches Some(node) && (*node.data matches NodeData::Instance(instance)
                && components.contains(instance.component))),
    decreases ids.len(),
{
    if ids.len() > 0 {
        lemma_behind(nodes, ids.drop_last(), removed, components);
        lemma_parted(ids);
        lemma_pushed(
            crate::layer_components::left_behind(nodes, ids.drop_last(), removed, components),
            ids.last(),
        );
    }
}

/// The instances that are left behind when layers go away: those that stay
/// themselves and draw a component that goes.
pub proof fn lemma_left_behind_instances(doc: Doc, roots: Seq<NodeId>)
    ensures
        ({
            let removed = crate::scene::forest(doc.nodes@, roots, doc.nodes@.len());
            let all = crate::scene::all_layers(doc.nodes@);
            let gone = crate::layer_components::component_ids(
                crate::layer_components::drawn_by(doc.components@, removed),
            );
            forall|id: NodeId| #[trigger]
                crate::layer_components::left_behind(doc.nodes@, all, removed, gone).contains(id)
                    <==> all.contains(id) && !removed.contains(id) && (crate::scene::find(
                    doc.nodes@,
                    id,
                ) matches Some(node) && (*node.data matches NodeData::Instance(instance) && exists|
                    def: ComponentDef,
                | #[trigger]
                    doc.components@.contains(def) && def.id == instance.component
                        && removed.contains(def.root)))
        }),
{
    let removed = crate::scene::forest(doc.nodes@, roots, doc.nodes@.len());
    let all = crate::scene::all_layers(doc.nodes@);
    let drawn = crate::layer_components::drawn_by(doc.components@, removed);
    let gone = crate::layer_components::component_ids(drawn);
    lemma_behind(doc.nodes@, all, removed, gone);
    lemma_drawn_by(doc.components@, removed);
    assert forall|component: ComponentId| #[trigger] gone.contains(component) <==> exists|
        def: ComponentDef,
    | #[trigger]
        doc.components@.contains(def) && def.id == component && removed.contains(def.root) by {
        if gone.contains(component) {
            let i = choose|i: int| 0 <= i < gone.len() && gone[i] == component;
            assert(drawn.contains(drawn[i]));
        }
        if exists|def: ComponentDef| #[trigger]
            doc.components@.contains(def) && def.id == component && removed.contains(def.root) {
            let def = choose|def: ComponentDef| #[trigger]
                doc.components@.contains(def) && def.id == component && removed.contains(def.root);
            assert(drawn.contains(def));
            let i = choose|i: int| 0 <= i < drawn.len() && drawn[i] == def;
            assert(gone[i] == component);
        }
    }
}

/// A set that loses members keeps the others, and its default is one that stays; one
/// that keeps none is deleted.
pub proof fn lemma_set_shrinks(operation: Operation, set: ComponentSet, gone: Seq<ComponentId>)
    requires
        crate::layer_components::shrinks_set(operation, set, gone),
    ensures
        operation is SetComponentSet <==> exists|i: int|
            0 <= i < set.members@.len() && !gone.contains(#[trigger] set.members@[i]),
        operation is SetComponentSet || operation is DeleteComponentSet,
        operation matches Operation::SetComponentSet { id, old, new } ==> {
            &&& id == set.id && new.id == set.id && new.name == set.name
            &&& forall|member: ComponentId| #[trigger]
                new.members@.contains(member) <==> set.members@.contains(member)
                    && !gone.contains(member)
            &&& set.members@.contains(set.default_variant) ==> new.members@.contains(
                new.default_variant,
            )
            &&& !gone.contains(set.default_variant) ==> new.default_variant == set.default_variant
        },
{
    let kept = crate::layer_components::kept_members(set.members@, gone);
    lemma_kept(set.members@, gone);
    if kept.len() > 0 {
        assert(kept.contains(kept[0]));
        let i = choose|i: int| 0 <= i < set.members@.len() && set.members@[i] == kept[0];
        assert(!gone.contains(set.members@[i]));
    } else {
        assert forall|i: int| 0 <= i < set.members@.len() implies gone.contains(
            #[trigger] set.members@[i],
        ) by {
            if !gone.contains(set.members@[i]) {
                assert(set.members@.contains(set.members@[i]));
                assert(kept.contains(set.members@[i]));
            }
        }
    }
}

// ---------------------------------------------------------------------------
// Flattening
// ---------------------------------------------------------------------------

/// The layer at a place shows fills, and no later one of the list does.
pub open spec fn paints_last(nodes: Seq<CanvasNode>, ids: Seq<NodeId>, at: int) -> bool {
    &&& 0 <= at < ids.len()
    &&& crate::scene::find(nodes, ids[at]) matches Some(node) && fills_of(*node.data).len() > 0
    &&& forall|i: int|
        at < i < ids.len() ==> (crate::scene::find(nodes, #[trigger] ids[i]) matches Some(node)
            ==> fills_of(*node.data).len() == 0)
}

proof fn lemma_last_paints(nodes: Seq<CanvasNode>, ids: Seq<NodeId>, at: int)
    requires
        paints_last(nodes, ids, at),
    ensures
        crate::layer_components::last_paints(nodes, ids) == fills_of(
            *crate::scene::find(nodes, ids[at])->0.data,
        ),
    decreases ids.len(),
{
    if at < ids.len() - 1 {
        let rest = ids.drop_last();
        assert(ids[ids.len() - 1] == ids.last());
        assert forall|i: int| at < i < rest.len() implies (crate::scene::find(
            nodes,
            #[trigger] rest[i],
        ) matches Some(node) ==> fills_of(*node.data).len() == 0) by {
            assert(rest[i] == ids[i]);
        }
        lemma_last_paints(nodes, rest, at);
    }
}

/// A flattened layer is painted with its own fills, or else with those of the topmost
/// layer below it that shows any.
pub proof fn lemma_flat_fills(doc: Doc, node: CanvasNode, at: int)
    ensures
        fills_of(*node.data).len() > 0 ==> crate::layer_components::flat_paints(doc.nodes@, node)
            == fills_of(*node.data),
        ({
            let below = crate::scene::descendants(doc.nodes@, node.id);
            fills_of(*node.data).len() == 0 && paints_last(doc.nodes@, below, at)
                ==> crate::layer_components::flat_paints(doc.nodes@, node) == fills_of(
                *crate::scene::find(doc.nodes@, below[at])->0.data,
            )
        }),
{
    let below = crate::scene::descendants(doc.nodes@, node.id);
    if paints_last(doc.nodes@, below, at) {
        lemma_last_paints(doc.nodes@, below, at);
    }
}

proof fn lemma_layers_listed(nodes: Seq<CanvasNode>, ids: Seq<NodeId>)
    ensures
        forall|x: CanvasNode| #[trigger]
            crate::layer_components::layers_of(nodes, ids).contains(x) <==> ids.contains(x.id)
                && crate::scene::find(nodes, x.id) == Some(x),
    decreases ids.len(),
{
    let all = crate::layer_components::layers_of(nodes, ids);
    if ids.len() > 0 {
        let rest = ids.drop_last();
        let before = crate::layer_components::layers_of(nodes, rest);
        lemma_layers_listed(nodes, rest);
        lemma_parted(ids);
        crate::scene::lemma_find_has_id(nodes, ids.last());
        if let Some(node) = crate::scene::find(nodes, ids.last()) {
            lemma_pushed(before, node);
        }
        assert forall|x: CanvasNode| #[trigger] all.contains(x) <==> ids.contains(x.id)
            && crate::scene::find(nodes, x.id) == Some(x) by {
            assert(before.contains(x) <==> rest.contains(x.id) && crate::scene::find(nodes, x.id)
                == Some(x));
            assert(ids.contains(x.id) <==> x.id == ids.last() || rest.contains(x.id));
        }
    }
}

/// The layer stands below one of the first `k` of the children, or is one.
pub open spec fn stands_below(
    doc: Doc,
    kids: Seq<CanvasNode>,
    k: int,
    layer: NodeId,
) -> bool {
    exists|i: int|
        0 <= i < k && i < kids.len() && crate::scene::descendants(
            doc.nodes@,
            (#[trigger] kids[i]).id,
        ).contains(layer)
}

proof fn lemma_cleared(
    doc: Doc,
    kids: Seq<CanvasNode>,
    operations: Seq<Operation>,
    k: int,
)
    requires
        doc.well_formed(),
        0 <= k <= operations.len(),
        kids.len() <= operations.len(),
        forall|i: int|
            0 <= i < kids.len() ==> crate::layer_components::deletes_subtree(
                operations[i],
                doc.nodes@,
                (#[trigger] kids[i]).id,
            ),
        forall|i: int|
            kids.len() <= i < operations.len() ==> (#[trigger] operations[i]) is SetAnimationTrack,
    ensures
        ({
            let before = doc.content();
            let after = crate::operations::all_applied(before, operations.take(k));
            forall|layer: NodeId|
                before.nodes.dom().contains(layer) ==> (#[trigger] after.nodes.dom().contains(layer)
                    <==> !stands_below(doc, kids, k, layer)) && (after.nodes.dom().contains(layer)
                    ==> after.nodes[layer] == before.nodes[layer])
        }),
    decreases k,
{
    let before = doc.content();
    if k == 0 {
        assert(operations.take(0) =~= Seq::<Operation>::empty());
    } else {
        lemma_cleared(doc, kids, operations, k - 1);
        let part = operations.take(k);
        assert(part.drop_last() =~= operations.take(k - 1));
        assert(part.last() == operations[k - 1]);
        let middle = crate::operations::all_applied(before, operations.take(k - 1));
        let after = crate::operations::all_applied(before, part);
        assert(after == crate::operations::applied(middle, operations[k - 1]));
        if k <= kids.len() {
            let kid = kids[k - 1].id;
            let below = crate::scene::descendants(doc.nodes@, kid);
            assert(crate::layer_components::deletes_subtree(
                operations[k - 1],
                doc.nodes@,
                kids[k - 1].id,
            ));
            let snapshot = operations[k - 1]->DeleteSubtree_snapshot@;
            lemma_layers_listed(doc.nodes@, below);
            crate::operations::lemma_without_members(middle.nodes, snapshot);
            assert forall|layer: NodeId| before.nodes.dom().contains(layer) implies (
            #[trigger] after.nodes.dom().contains(layer) <==> !stands_below(doc, kids, k, layer))
                && (after.nodes.dom().contains(layer) ==> after.nodes[layer]
                == before.nodes[layer]) by {
                crate::operations::lemma_find_is_content(doc, layer);
                if below.contains(layer) {
                    assert(snapshot.contains(before.nodes[layer]));
                    let i = choose|i: int|
                        0 <= i < snapshot.len() && snapshot[i] == before.nodes[layer];
                    assert(snapshot[i].id == layer);
                    assert(crate::operations::in_list(snapshot, layer));
                    assert(crate::scene::descendants(doc.nodes@, kids[k - 1].id).contains(layer));
                }
                if crate::operations::in_list(snapshot, layer) {
                    let i = choose|i: int|
                        0 <= i < snapshot.len() && (#[trigger] snapshot[i]).id == layer;
                    assert(snapshot.contains(snapshot[i]));
                    assert(below.contains(layer));
                }
                if stands_below(doc, kids, k, layer) && !below.contains(layer) {
                    assert(stands_below(doc, kids, k - 1, layer));
                }
                assert(middle.nodes.dom().contains(layer) <==> !stands_below(
                    doc,
                    kids,
                    k - 1,
                    layer,
                ));
            }
        } else {
            assert forall|layer: NodeId| before.nodes.dom().contains(layer) implies (
            #[trigger] after.nodes.dom().contains(layer) <==> !stands_below(doc, kids, k, layer))
                && (after.nodes.dom().contains(layer) ==> after.nodes[layer]
                == before.nodes[layer]) by {
                assert(operations[k - 1] is SetAnimationTrack);
                assert(middle.nodes.dom().contains(layer) <==> !stands_below(
                    doc,
                    kids,
                    k - 1,
                    layer,
                ));
            }
        }
    }
}

/// Flattening a layer that is no instance, in a document without components: the layer
/// is the outline of what it showed, with its own strokes and nothing else of its
/// shape; all that stood below it is gone, and every other layer stays. No layer
/// stands below itself.
pub proof fn lemma_flatten_lands(
    doc: Doc,
    id: NodeId,
    facts: crate::layer_components::FlattenFacts,
    r: Result<Seq<Operation>, LayerError>,
)
    requires
        doc.well_formed(),
        doc.content().nodes.dom().contains(id),
        doc.components@.len() == 0,
        !(*doc.content().nodes[id].data is Instance),
        !stands_below(
            doc,
            crate::scene::children(doc.nodes@, Some(id)),
            crate::scene::children(doc.nodes@, Some(id)).len() as int,
            id,
        ),
        crate::layer_components::flatten_outcome(doc, id, facts, r),
    ensures
        r is Ok <==> facts.outline is Ok,
        r matches Ok(operations) ==> ({
            let kids = crate::scene::children(doc.nodes@, Some(id));
            let before = doc.content();
            let all = crate::operations::all_applied(before, operations);
            let after = all.nodes[id];
            &&& all.nodes.dom().contains(id)
            &&& after == (CanvasNode { data: after.data, ..before.nodes[id] })
            &&& *after.data matches NodeData::Vector(vector) && {
                &&& facts.outline == Ok::<crate::document::PathData, LayerError>(vector.path)
                &&& vector.strokes@ == strokes_of(*before.nodes[id].data)
                &&& fills_of(*before.nodes[id].data).len() > 0 ==> vector.fills@ == fills_of(
                    *before.nodes[id].data,
                )
                &&& vector.corner_radius is None
                &&& vector.corner_radii is None
                &&& vector.parametric is None
                &&& vector.local_size is None
            }
            &&& forall|layer: NodeId|
                before.nodes.dom().contains(layer) && layer != id ==> (
                #[trigger] all.nodes.dom().contains(layer) <==> !stands_below(
                    doc,
                    kids,
                    kids.len() as int,
                    layer,
                )) && (all.nodes.dom().contains(layer) ==> all.nodes[layer]
                    == before.nodes[layer])
        }),
{
    crate::operations::lemma_find_is_content(doc, id);
    let before = doc.content();
    assert(crate::layer_components::flatten_layer_outcome(doc, id, Seq::empty(), facts, r));
    let removed = crate::scene::forest(doc.nodes@, seq![id], doc.nodes@.len());
    assert(crate::layer_components::drawn_by(doc.components@, removed).len() == 0);
    if r is Err && crate::layer_components::release_outcome(
        doc,
        seq![id],
        facts.detached_behind@,
        r,
    ) {
    } else {
        let (released, scratch) = choose|released: Seq<Operation>, scratch: Doc|
            crate::layer_components::release_then_flat(
                doc,
                id,
                Seq::empty(),
                facts,
                released,
                scratch,
                r,
            );
        assert(released.len() == 0);
        assert(crate::operations::carried(before, released));
        assert(Seq::<Operation>::empty() + released =~= Seq::<Operation>::empty());
        if let Ok(operations) = r {
            assert(operations.skip(0) =~= operations);
            assert(crate::layer_components::flattens(
                operations,
                doc,
                before.nodes[id],
                facts.outline->Ok_0,
            ));
            lemma_flat_fills(doc, before.nodes[id], 0);
            let kids = crate::scene::children(doc.nodes@, Some(id));
            let tracks = crate::layer_components::inner_tracks(doc.nodes@, doc.tracks@, id);
            let lead = operations.drop_last();
            let n = lead.len() as int;
            assert forall|i: int| 0 <= i < kids.len() implies crate::layer_components::deletes_subtree(
                lead[i],
                doc.nodes@,
                (#[trigger] kids[i]).id,
            ) by {
                assert(lead[i] == operations[i]);
            }
            assert forall|i: int| kids.len() <= i < lead.len() implies (
            #[trigger] lead[i]) is SetAnimationTrack by {
                let at = i - kids.len();
                assert(operations[kids.len() + at] == (Operation::SetAnimationTrack {
                    clip: tracks[at].clip,
                    track: tracks[at].id,
                    old: Some(tracks[at]),
                    new: None,
                }));
            }
            lemma_cleared(doc, kids, lead, n);
            assert(lead.take(n) =~= lead);
            let middle = crate::operations::all_applied(before, lead);
            assert(crate::operations::all_applied(before, operations)
                == crate::operations::applied(middle, operations.last()));
            assert forall|layer: NodeId| #[trigger]
                stands_below(doc, kids, n, layer) <==> stands_below(
                doc,
                kids,
                kids.len() as int,
                layer,
            ) by {}
            assert(middle.nodes.dom().contains(id));
        }
    }
}

} // verus!
