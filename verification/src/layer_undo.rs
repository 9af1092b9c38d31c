//! Laws: what the layer commands do can be taken back.

use vstd::prelude::*;

use crate::document::{AnimationTrack, CanvasNode, ComponentDef, ComponentSet, Doc, NodeData, PathData};
use crate::document::LayoutMode;
use crate::ids::{ComponentId, NodeId};
use crate::layer_components::{FlattenFacts, OutlineFacts};
use crate::layer_context_ops::LayoutFacts;
use crate::layer_errors::LayerError;
use crate::operations::{Content, Operation};
use crate::paint::{CropWindow, Stroke};
use crate::scalar::Scalar;

verus! {

// ---------------------------------------------------------------------------
// Commands that change one layer
// ---------------------------------------------------------------------------

proof fn lemma_replaced(doc: Doc, node: CanvasNode, operations: Seq<Operation>, data: NodeData)
    requires
        doc.well_formed(),
        crate::scene::find(doc.nodes@, node.id) == Some(node),
        operations.len() == 1,
        crate::layer_context_ops::replaces(operations[0], node, data),
    ensures
        crate::operations::reversible(doc.content(), operations),
{
    crate::operations::lemma_doc_filed(doc);
    crate::operations::lemma_find_is_content(doc, node.id);
    crate::operations::lemma_independent_reversible(doc.content(), operations);
}

/// Cropping a picture to a ratio, and taking its crop away, can be taken back.
pub proof fn lemma_crop_reversible(
    doc: Doc,
    id: NodeId,
    aspect: Option<Scalar>,
    window: CropWindow,
    height: Scalar,
    r: Result<Vec<Operation>, LayerError>,
)
    requires
        doc.well_formed(),
        crate::layer_context_ops::crop_outcome(doc, id, aspect, window, height, r),
        r is Ok,
    ensures
        crate::operations::reversible(doc.content(), r->Ok_0@),
{
    crate::scene::lemma_find_has_id(doc.nodes@, id);
    let node = crate::scene::find(doc.nodes@, id)->0;
    let data = *(r->Ok_0@[0]->ReplaceData_new);
    lemma_replaced(doc, node, r->Ok_0@, data);
}

/// Cropping a picture to a window can be taken back.
pub proof fn lemma_crop_rectangle_reversible(
    doc: Doc,
    id: NodeId,
    percent: CropWindow,
    fits: bool,
    fractions: CropWindow,
    height: Scalar,
    r: Result<Vec<Operation>, LayerError>,
)
    requires
        doc.well_formed(),
        crate::layer_context_ops::crop_rectangle_outcome(
            doc,
            id,
            percent,
            fits,
            fractions,
            height,
            r,
        ),
        r is Ok,
    ensures
        crate::operations::reversible(doc.content(), r->Ok_0@),
{
    crate::scene::lemma_find_has_id(doc.nodes@, id);
    let node = crate::scene::find(doc.nodes@, id)->0;
    let data = *(r->Ok_0@[0]->ReplaceData_new);
    lemma_replaced(doc, node, r->Ok_0@, data);
}

/// Turning wrapping over can be taken back.
pub proof fn lemma_wrap_reversible(doc: Doc, id: NodeId, r: Result<Vec<Operation>, LayerError>)
    requires
        doc.well_formed(),
        crate::layer_context_ops::wrap_outcome(doc, id, r),
        r is Ok,
    ensures
        crate::operations::reversible(doc.content(), r->Ok_0@),
{
    crate::scene::lemma_find_has_id(doc.nodes@, id);
    let node = crate::scene::find(doc.nodes@, id)->0;
    let data = *(r->Ok_0@[0]->ReplaceData_new);
    lemma_replaced(doc, node, r->Ok_0@, data);
}

/// Laying a layer out can be taken back, if putting layers into a frame can.
pub proof fn lemma_layout_reversible(
    doc: Doc,
    id: NodeId,
    mode: Option<LayoutMode>,
    selection_roots: Seq<NodeId>,
    facts: LayoutFacts,
    r: Result<Vec<Operation>, LayerError>,
)
    requires
        doc.well_formed(),
        crate::layer_context_ops::auto_layout_outcome(doc, id, mode, selection_roots, facts, r),
        r is Ok,
        facts.framed matches Ok(framed) ==> crate::operations::reversible(
            doc.content(),
            framed.operations@,
        ),
    ensures
        crate::operations::reversible(doc.content(), r->Ok_0@),
{
    crate::scene::lemma_find_has_id(doc.nodes@, id);
    let node = crate::scene::find(doc.nodes@, id)->0;
    let operations = r->Ok_0@;
    if crate::layer_components::is_group(node) {
        let data = *(operations[0]->ReplaceData_new);
        lemma_replaced(doc, node, operations, data);
    } else {
        let framed = facts.framed->Ok_0;
        let lead = framed.operations@;
        let after = crate::operations::all_applied(doc.content(), lead);
        let last = operations.skip(lead.len() as int);
        assert(operations =~= lead + last);
        crate::operations::lemma_doc_filed(doc);
        crate::operations::lemma_all_applied_filed(doc.content(), lead);
        crate::operations::lemma_independent_reversible(after, last);
        crate::operations::lemma_reversible_concat(doc.content(), lead, last);
    }
}

/// Pasting a look can be taken back. The targets are named once each.
pub proof fn lemma_paste_reversible(
    doc: Doc,
    id: NodeId,
    source: CanvasNode,
    selection_roots: Seq<NodeId>,
    r: Result<Vec<Operation>, LayerError>,
)
    requires
        doc.well_formed(),
        crate::layer_context_ops::paste_outcome(doc, id, source, selection_roots, r),
        r is Ok,
        selection_roots.no_duplicates(),
    ensures
        crate::operations::reversible(doc.content(), r->Ok_0@),
{
    let operations = r->Ok_0@;
    let content = doc.content();
    let ids = crate::layer_context_ops::target_ids(doc, id, selection_roots);
    crate::operations::lemma_doc_filed(doc);
    assert(ids.no_duplicates());
    assert forall|i: int| 0 <= i < operations.len() implies crate::operations::changes(
        #[trigger] operations[i],
    ) == Some(ids[i / 5]) && crate::operations::written_part(operations[i]) == pasted_part(i % 5)
        && crate::operations::applicable(content, operations[i]) && crate::operations::recorded(
        content,
        operations[i],
    ) by {
        let q = i / 5;
        let target = ids[q];
        assert(crate::layer_context_ops::can_edit(doc, target));
        crate::operations::lemma_find_is_content(doc, target);
        assert(operations.subrange(5 * q, 5 * q + 5)[i % 5] == operations[i]);
    }
    assert forall|i: int, j: int| 0 <= i < j < operations.len() implies crate::operations::apart(
        #[trigger] operations[i],
        #[trigger] operations[j],
    ) by {
        if i / 5 != j / 5 {
            assert(ids[i / 5] != ids[j / 5]);
        }
    }
    crate::operations::lemma_independent_reversible(content, operations);
}

/// The part of a layer that one of the five operations of a paste writes.
pub open spec fn pasted_part(place: int) -> int {
    if place == 0 {
        12
    } else {
        place + 4
    }
}

// ---------------------------------------------------------------------------
// Letting components go
// ---------------------------------------------------------------------------

/// However many of the instances are turned into plain layers, that can be taken
/// back, and no definition is touched.
pub open spec fn detaching_recorded(content: Content, detached: Seq<Vec<Operation>>) -> bool {
    forall|n: int|
        0 <= n <= detached.len() ==> #[trigger] detaches_layers(content, detached.take(n))
}

pub open spec fn detaches_layers(content: Content, detached: Seq<Vec<Operation>>) -> bool {
    let operations = crate::layer_components::joined(detached);
    let after = crate::operations::all_applied(content, operations);
    &&& crate::operations::reversible(content, operations)
    &&& after.sets == content.sets
    &&& after.components == content.components
}

proof fn lemma_drawn_members(doc: Doc, components: Seq<ComponentDef>, layers: Seq<NodeId>)
    requires
        doc.well_formed(),
        crate::keyed::distinct(components, crate::operations::component_key()),
        forall|i: int|
            0 <= i < components.len() ==> doc.components@.contains(#[trigger] components[i]),
    ensures
        ({
            let drawn = crate::layer_components::drawn_by(components, layers);
            &&& crate::keyed::distinct(drawn, crate::operations::component_key())
            &&& forall|i: int|
                0 <= i < drawn.len() ==> components.contains(#[trigger] drawn[i])
        }),
    decreases components.len(),
{
    if components.len() > 0 {
        let front = components.drop_last();
        let key = crate::operations::component_key();
        assert forall|i: int, j: int| 0 <= i < j < front.len() implies key(#[trigger] front[i])
            != key(#[trigger] front[j]) by {
            assert(key(components[i]) != key(components[j]));
        }
        assert forall|i: int| 0 <= i < front.len() implies doc.components@.contains(
            #[trigger] front[i],
        ) by {
            assert(doc.components@.contains(components[i]));
        }
        lemma_drawn_members(doc, front, layers);
        let rest = crate::layer_components::drawn_by(front, layers);
        let drawn = crate::layer_components::drawn_by(components, layers);
        assert forall|i: int| 0 <= i < drawn.len() implies components.contains(
            #[trigger] drawn[i],
        ) by {
            if i < rest.len() {
                let at = choose|at: int| 0 <= at < front.len() && front[at] == rest[i];
                assert(components[at] == drawn[i]);
            } else {
                assert(components[components.len() - 1] == drawn[i]);
            }
        }
        assert forall|i: int, j: int| 0 <= i < j < drawn.len() implies key(#[trigger] drawn[i])
            != key(#[trigger] drawn[j]) by {
            if j < rest.len() {
                assert(key(rest[i]) != key(rest[j]));
            } else {
                let at = choose|at: int| 0 <= at < front.len() && front[at] == rest[i];
                assert(key(components[at]) != key(components[components.len() - 1]));
            }
        }
    }
}

proof fn lemma_losing_members(sets: Seq<ComponentSet>, gone: Seq<ComponentId>)
    requires
        crate::keyed::distinct(sets, crate::operations::set_key()),
    ensures
        ({
            let losing = crate::layer_components::losing_sets(sets, gone);
            &&& crate::keyed::distinct(losing, crate::operations::set_key())
            &&& forall|i: int| 0 <= i < losing.len() ==> sets.contains(#[trigger] losing[i])
        }),
    decreases sets.len(),
{
    if sets.len() > 0 {
        let front = sets.drop_last();
        let key = crate::operations::set_key();
        assert forall|i: int, j: int| 0 <= i < j < front.len() implies key(#[trigger] front[i])
            != key(#[trigger] front[j]) by {
            assert(key(sets[i]) != key(sets[j]));
        }
        lemma_losing_members(front, gone);
        let rest = crate::layer_components::losing_sets(front, gone);
        let losing = crate::layer_components::losing_sets(sets, gone);
        assert forall|i: int| 0 <= i < losing.len() implies sets.contains(
            #[trigger] losing[i],
        ) by {
            if i < rest.len() {
                let at = choose|at: int| 0 <= at < front.len() && front[at] == rest[i];
                assert(sets[at] == losing[i]);
            } else {
                assert(sets[sets.len() - 1] == losing[i]);
            }
        }
        assert forall|i: int, j: int| 0 <= i < j < losing.len() implies key(#[trigger] losing[i])
            != key(#[trigger] losing[j]) by {
            if j < rest.len() {
                assert(key(rest[i]) != key(rest[j]));
            } else {
                let at = choose|at: int| 0 <= at < front.len() && front[at] == rest[i];
                assert(key(sets[at]) != key(sets[sets.len() - 1]));
            }
        }
    }
}

/// What holds after the first `n` operations of a release: the sets and the
/// components whose turn has not come are there as they were.
proof fn lemma_release_prefix(
    doc: Doc,
    components: Seq<ComponentDef>,
    detached: Seq<Operation>,
    operations: Seq<Operation>,
    n: int,
)
    requires
        doc.well_formed(),
        crate::layer_components::releases(operations, doc.sets@, components, detached),
        crate::keyed::distinct(components, crate::operations::component_key()),
        forall|i: int|
            0 <= i < components.len() ==> doc.components@.contains(#[trigger] components[i]),
        crate::operations::reversible(doc.content(), detached),
        crate::operations::all_applied(doc.content(), detached).sets == doc.content().sets,
        crate::operations::all_applied(doc.content(), detached).components
            == doc.content().components,
        detached.len() <= n <= operations.len(),
    ensures
        crate::operations::reversible(doc.content(), operations.take(n)),
        ({
            let gone = crate::layer_components::component_ids(components);
            let losing = crate::layer_components::losing_sets(doc.sets@, gone);
            let after = crate::operations::all_applied(doc.content(), operations.take(n));
            &&& forall|k: int|
                0 <= k < losing.len() && n <= detached.len() + k
                    ==> after.sets.dom().contains((#[trigger] losing[k]).id)
                    && after.sets[losing[k].id] == losing[k]
            &&& forall|k: int|
                0 <= k < components.len() && n <= detached.len() + losing.len() + k
                    ==> after.components.dom().contains((#[trigger] components[k]).id)
                    && after.components[components[k].id] == components[k]
        }),
    decreases n,
{
    let content = doc.content();
    let gone = crate::layer_components::component_ids(components);
    let losing = crate::layer_components::losing_sets(doc.sets@, gone);
    let d = detached.len();
    lemma_losing_members(doc.sets@, gone);
    if n == d {
        assert(operations.take(n) =~= detached);
        assert forall|k: int| 0 <= k < losing.len() implies content.sets.dom().contains(
            (#[trigger] losing[k]).id,
        ) && content.sets[losing[k].id] == losing[k] by {
            let at = choose|at: int| 0 <= at < doc.sets@.len() && doc.sets@[at] == losing[k];
            crate::keyed::lemma_keyed_at(doc.sets@, crate::operations::set_key(), at);
        }
        assert forall|k: int| 0 <= k < components.len() implies content.components.dom().contains(
            (#[trigger] components[k]).id,
        ) && content.components[components[k].id] == components[k] by {
            assert(doc.components@.contains(components[k]));
            let at = choose|at: int|
                0 <= at < doc.components@.len() && doc.components@[at] == components[k];
            crate::keyed::lemma_keyed_at(doc.components@, crate::operations::component_key(), at);
        }
    } else {
        lemma_release_prefix(doc, components, detached, operations, n - 1);
        let before = crate::operations::all_applied(content, operations.take(n - 1));
        let operation = operations[n - 1];
        assert(operations.take(n) =~= operations.take(n - 1).push(operation));
        if n - 1 < d + losing.len() {
            let k = n - 1 - d;
            assert(crate::layer_components::shrinks_set(operations[d + k], losing[k], gone));
            assert(before.sets.dom().contains(losing[k].id));
            crate::operations::lemma_reversible_push(content, operations.take(n - 1), operation);
            let after = crate::operations::all_applied(content, operations.take(n));
            assert forall|j: int|
                0 <= j < losing.len() && n <= d + j implies after.sets.dom().contains(
                (#[trigger] losing[j]).id,
            ) && after.sets[losing[j].id] == losing[j] by {
                let key = crate::operations::set_key();
                assert(key(losing[k]) != key(losing[j]));
            }
        } else {
            let k = n - 1 - d - losing.len();
            assert(crate::layer_components::deletes_component(
                operations[d + losing.len() + k],
                components[k],
            ));
            assert(before.components.dom().contains(components[k].id));
            crate::operations::lemma_reversible_push(content, operations.take(n - 1), operation);
            let after = crate::operations::all_applied(content, operations.take(n));
            assert forall|j: int|
                0 <= j < components.len() && n <= d + losing.len()
                    + j implies after.components.dom().contains((#[trigger] components[j]).id)
                && after.components[components[j].id] == components[j] by {
                let key = crate::operations::component_key();
                assert(key(components[k]) != key(components[j]));
            }
        }
    }
}

/// Letting components go with their layers can be taken back, if turning
/// instances into plain layers can.
pub proof fn lemma_release_reversible(
    doc: Doc,
    roots: Seq<NodeId>,
    detached: Seq<Vec<Operation>>,
    released: Seq<Operation>,
)
    requires
        doc.well_formed(),
        crate::layer_components::release_outcome(doc, roots, detached, Ok(released)),
        detaching_recorded(doc.content(), detached),
    ensures
        crate::operations::reversible(doc.content(), released),
{
    let removed = crate::scene::forest(doc.nodes@, roots, doc.nodes@.len());
    let components = crate::layer_components::drawn_by(doc.components@, removed);
    let behind = crate::layer_components::left_behind(
        doc.nodes@,
        crate::scene::all_layers(doc.nodes@),
        removed,
        crate::layer_components::component_ids(components),
    );
    if components.len() > 0 {
        let n = behind.len() as int;
        if n > 0 {
            assert(crate::layer_components::detaches(detached, n - 1));
        }
        assert(detaches_layers(doc.content(), detached.take(n)));
        lemma_drawn_members(doc, doc.components@, removed);
        let lead = crate::layer_components::joined(detached.take(n));
        lemma_release_prefix(doc, components, lead, released, released.len() as int);
        assert(released.take(released.len() as int) =~= released);
    }
}

/// Deleting layers can be taken back, if turning instances into plain layers
/// can, and if the deletion of the layers themselves can.
pub proof fn lemma_delete_reversible(
    doc: Doc,
    id: NodeId,
    selection_roots: Seq<NodeId>,
    detached: Seq<Vec<Operation>>,
    deletions: Seq<Operation>,
    operations: Seq<Operation>,
)
    requires
        doc.well_formed(),
        crate::layer_components::delete_outcome(
            doc,
            id,
            selection_roots,
            detached,
            deletions,
            Ok(operations),
        ),
        detaching_recorded(doc.content(), detached),
        crate::operations::reversible(
            crate::operations::all_applied(
                doc.content(),
                operations.take(operations.len() - deletions.len()),
            ),
            deletions,
        ),
    ensures
        crate::operations::reversible(doc.content(), operations),
{
    let ids = crate::layer_context_ops::target_ids(doc, id, selection_roots);
    let released = choose|released: Seq<Operation>|
        #![trigger crate::layer_components::release_outcome(doc, ids, detached, Ok(released))]
        crate::layer_components::release_outcome(doc, ids, detached, Ok(released))
            && operations == released + deletions;
    assert(operations.take(operations.len() - deletions.len()) =~= released);
    lemma_release_reversible(doc, ids, detached, released);
    crate::operations::lemma_reversible_concat(doc.content(), released, deletions);
}

// ---------------------------------------------------------------------------
// Flattening
// ---------------------------------------------------------------------------

proof fn lemma_inner_members(nodes: Seq<CanvasNode>, tracks: Seq<AnimationTrack>, id: NodeId)
    requires
        crate::keyed::distinct(tracks, crate::operations::track_key()),
    ensures
        ({
            let inner = crate::layer_components::inner_tracks(nodes, tracks, id);
            &&& crate::keyed::distinct(inner, crate::operations::track_key())
            &&& forall|i: int| 0 <= i < inner.len() ==> tracks.contains(#[trigger] inner[i])
        }),
    decreases tracks.len(),
{
    if tracks.len() > 0 {
        let front = tracks.drop_last();
        let key = crate::operations::track_key();
        assert forall|i: int, j: int| 0 <= i < j < front.len() implies key(#[trigger] front[i])
            != key(#[trigger] front[j]) by {
            assert(key(tracks[i]) != key(tracks[j]));
        }
        lemma_inner_members(nodes, front, id);
        let rest = crate::layer_components::inner_tracks(nodes, front, id);
        let inner = crate::layer_components::inner_tracks(nodes, tracks, id);
        assert forall|i: int| 0 <= i < inner.len() implies tracks.contains(
            #[trigger] inner[i],
        ) by {
            if i < rest.len() {
                let at = choose|at: int| 0 <= at < front.len() && front[at] == rest[i];
                assert(tracks[at] == inner[i]);
            } else {
                assert(tracks[tracks.len() - 1] == inner[i]);
            }
        }
        assert forall|i: int, j: int| 0 <= i < j < inner.len() implies key(#[trigger] inner[i])
            != key(#[trigger] inner[j]) by {
            if j < rest.len() {
                assert(key(rest[i]) != key(rest[j]));
            } else {
                let at = choose|at: int| 0 <= at < front.len() && front[at] == rest[i];
                assert(key(tracks[at]) != key(tracks[tracks.len() - 1]));
            }
        }
    }
}

proof fn lemma_layers_of_members(doc: Doc, ids: Seq<NodeId>)
    requires
        doc.well_formed(),
    ensures
        ({
            let layers = crate::layer_components::layers_of(doc.nodes@, ids);
            forall|i: int|
                0 <= i < layers.len() ==> doc.content().nodes[(#[trigger] layers[i]).id]
                    == layers[i]
        }),
    decreases ids.len(),
{
    if ids.len() > 0 {
        let front = ids.drop_last();
        lemma_layers_of_members(doc, front);
        crate::operations::lemma_find_is_content(doc, ids.last());
        let rest = crate::layer_components::layers_of(doc.nodes@, front);
        let layers = crate::layer_components::layers_of(doc.nodes@, ids);
        assert forall|i: int| 0 <= i < layers.len() implies doc.content().nodes[(
        #[trigger] layers[i]).id] == layers[i] by {
            if i < rest.len() {
                assert(rest[i] == layers[i]);
            }
        }
    }
}

/// What holds after the first `n` operations of a flattening: the layers that
/// are left are as they were, and so are the tracks whose turn has not come.
proof fn lemma_flat_prefix(
    doc: Doc,
    node: CanvasNode,
    path: PathData,
    operations: Seq<Operation>,
    n: int,
)
    requires
        doc.well_formed(),
        crate::layer_components::flattens(operations, doc, node, path),
        crate::operations::carried(doc.content(), operations),
        0 <= n < operations.len(),
    ensures
        crate::operations::reversible(doc.content(), operations.take(n)),
        ({
            let after = crate::operations::all_applied(doc.content(), operations.take(n));
            let kids = crate::scene::children(doc.nodes@, Some(node.id));
            let tracks = crate::layer_components::inner_tracks(doc.nodes@, doc.tracks@, node.id);
            &&& forall|id: NodeId| #[trigger]
                after.nodes.dom().contains(id) ==> after.nodes[id] == doc.content().nodes[id]
            &&& forall|k: int|
                0 <= k < tracks.len() && n <= kids.len() + k ==> after.tracks.dom().contains(
                    crate::operations::track_key()(#[trigger] tracks[k]),
                ) && after.tracks[crate::operations::track_key()(tracks[k])] == tracks[k]
        }),
    decreases n,
{
    let content = doc.content();
    let kids = crate::scene::children(doc.nodes@, Some(node.id));
    let tracks = crate::layer_components::inner_tracks(doc.nodes@, doc.tracks@, node.id);
    let key = crate::operations::track_key();
    lemma_inner_members(doc.nodes@, doc.tracks@, node.id);
    if n == 0 {
        assert(operations.take(0) =~= Seq::<Operation>::empty());
        assert forall|k: int| 0 <= k < tracks.len() implies content.tracks.dom().contains(
            key(#[trigger] tracks[k]),
        ) && content.tracks[key(tracks[k])] == tracks[k] by {
            let at = choose|at: int| 0 <= at < doc.tracks@.len() && doc.tracks@[at] == tracks[k];
            crate::keyed::lemma_keyed_at(doc.tracks@, key, at);
        }
    } else {
        lemma_flat_prefix(doc, node, path, operations, n - 1);
        let before = crate::operations::all_applied(content, operations.take(n - 1));
        let operation = operations[n - 1];
        assert(operations.take(n) =~= operations.take(n - 1).push(operation));
        crate::apply::lemma_carried_prefix(content, operations, n);
        assert(operations.take(n).drop_last() =~= operations.take(n - 1));
        assert(crate::operations::applicable(before, operation));
        if n - 1 < kids.len() {
            assert(crate::layer_components::deletes_subtree(
                operations[n - 1],
                doc.nodes@,
                kids[n - 1].id,
            ));
            lemma_layers_of_members(doc, crate::scene::descendants(doc.nodes@, kids[n - 1].id));
            let snapshot = operation->DeleteSubtree_snapshot;
            assert forall|i: int| 0 <= i < snapshot@.len() implies before.nodes[(
            #[trigger] snapshot@[i]).id] == snapshot@[i] by {
                assert(before.nodes.dom().contains(snapshot@[i].id));
            }
            crate::operations::lemma_reversible_push(content, operations.take(n - 1), operation);
            crate::operations::lemma_without_members(before.nodes, snapshot@);
        } else {
            let k = n - 1 - kids.len();
            assert(operations[kids.len() + k] == (Operation::SetAnimationTrack {
                clip: tracks[k].clip,
                track: tracks[k].id,
                old: Some(tracks[k]),
                new: None,
            }));
            assert(before.tracks.dom().contains(key(tracks[k])));
            crate::operations::lemma_reversible_push(content, operations.take(n - 1), operation);
            let after = crate::operations::all_applied(content, operations.take(n));
            assert forall|j: int|
                0 <= j < tracks.len() && n <= kids.len() + j implies after.tracks.dom().contains(
                key(#[trigger] tracks[j]),
            ) && after.tracks[key(tracks[j])] == tracks[j] by {
                assert(key(tracks[k]) != key(tracks[j]));
            }
        }
    }
}

proof fn lemma_flattens_reversible(
    doc: Doc,
    id: NodeId,
    node: CanvasNode,
    path: PathData,
    operations: Seq<Operation>,
)
    requires
        doc.well_formed(),
        crate::scene::find(doc.nodes@, id) == Some(node),
        crate::layer_components::flattens(operations, doc, node, path),
        crate::operations::carried(doc.content(), operations),
    ensures
        crate::operations::reversible(doc.content(), operations),
{
    let n = operations.len() - 1;
    lemma_flat_prefix(doc, node, path, operations, n);
    crate::operations::lemma_find_is_content(doc, id);
    assert(operations.drop_last() =~= operations.take(n));
}

/// Flattening that goes through can be taken back, if turning instances into
/// plain layers can.
pub proof fn lemma_flatten_reversible(
    doc: Doc,
    id: NodeId,
    facts: FlattenFacts,
    operations: Seq<Operation>,
)
    requires
        doc.well_formed(),
        crate::layer_components::flatten_outcome(doc, id, facts, Ok(operations)),
        crate::operations::carried(doc.content(), operations),
        crate::scene::find(doc.nodes@, id) matches Some(node)
            && crate::layer_components::is_instance(node) ==> crate::operations::reversible(
            doc.content(),
            facts.detached@,
        ),
        detaching_recorded(
            crate::operations::all_applied(doc.content(), flatten_lead(doc, id, facts)),
            facts.detached_behind@,
        ),
    ensures
        crate::operations::reversible(doc.content(), operations),
{
    let node = crate::scene::find(doc.nodes@, id)->0;
    let lead = flatten_lead(doc, id, facts);
    let r = Ok::<Seq<Operation>, LayerError>(operations);
    if crate::layer_components::is_instance(node) {
        let plain = choose|plain: Doc|
            plain.well_formed() && plain.content() == crate::operations::all_applied(
                doc.content(),
                facts.detached@,
            ) && #[trigger] crate::layer_components::flatten_layer_outcome(
                plain,
                id,
                facts.detached@,
                facts,
                r,
            );
        lemma_flatten_layer(doc, plain, id, lead, facts, operations);
    } else {
        lemma_flatten_layer(doc, doc, id, lead, facts, operations);
    }
}

/// The operations that make the layer a plain one, where it is an instance.
pub open spec fn flatten_lead(doc: Doc, id: NodeId, facts: FlattenFacts) -> Seq<Operation> {
    if crate::scene::find(doc.nodes@, id) matches Some(node)
        && crate::layer_components::is_instance(node) {
        facts.detached@
    } else {
        Seq::empty()
    }
}

proof fn lemma_flatten_layer(
    doc: Doc,
    plain: Doc,
    id: NodeId,
    lead: Seq<Operation>,
    facts: FlattenFacts,
    operations: Seq<Operation>,
)
    requires
        plain.well_formed(),
        plain.content() == crate::operations::all_applied(doc.content(), lead),
        crate::operations::reversible(doc.content(), lead),
        crate::layer_components::flatten_layer_outcome(plain, id, lead, facts, Ok(operations)),
        crate::operations::carried(doc.content(), operations),
        detaching_recorded(plain.content(), facts.detached_behind@),
    ensures
        crate::operations::reversible(doc.content(), operations),
{
    let r = Ok::<Seq<Operation>, LayerError>(operations);
    let (released, scratch) = choose|released: Seq<Operation>, scratch: Doc|
        crate::layer_components::release_then_flat(plain, id, lead, facts, released, scratch, r);
    lemma_release_reversible(plain, seq![id], facts.detached_behind@, released);
    let start = lead + released;
    crate::operations::lemma_reversible_concat(doc.content(), lead, released);
    let flat = operations.skip(start.len() as int);
    assert(operations.take(start.len() as int) == start);
    assert(operations =~= start + flat);
    crate::operations::lemma_carried_split(doc.content(), start, flat);
    let node = crate::scene::find(scratch.nodes@, id)->0;
    lemma_flattens_reversible(scratch, id, node, facts.outline->Ok_0, flat);
    crate::operations::lemma_reversible_concat(doc.content(), start, flat);
}

// ---------------------------------------------------------------------------
// Outlining strokes
// ---------------------------------------------------------------------------

pub open spec fn own_strokes(node: CanvasNode) -> Seq<Stroke> {
    crate::layer_context_ops::shown_strokes(*node.data)
}

proof fn lemma_outline_prefix(
    doc: Doc,
    node: CanvasNode,
    facts: OutlineFacts,
    operations: Seq<Operation>,
    n: int,
)
    requires
        doc.well_formed(),
        crate::scene::find(doc.nodes@, node.id) == Some(node),
        crate::layer_components::outlines(operations, doc, node, facts),
        crate::operations::carried(doc.content(), operations),
        0 <= n <= operations.len(),
    ensures
        crate::operations::reversible(doc.content(), operations.take(n)),
        ({
            let after = crate::operations::all_applied(doc.content(), operations.take(n));
            let kids = crate::scene::children(doc.nodes@, Some(node.id));
            forall|k: int|
                0 <= k < kids.len() && n <= 2 + k ==> after.nodes.dom().contains(
                    (#[trigger] kids[k]).id,
                ) && after.nodes[kids[k].id].id == kids[k].id && after.nodes[kids[k].id].parent
                    == kids[k].parent && after.nodes[kids[k].id].index == kids[k].index
        }),
    decreases n,
{
    let content = doc.content();
    let kids = crate::scene::children(doc.nodes@, Some(node.id));
    crate::operations::lemma_doc_filed(doc);
    if n == 0 {
        assert(operations.take(0) =~= Seq::<Operation>::empty());
        assert forall|k: int| 0 <= k < kids.len() implies content.nodes.dom().contains(
            (#[trigger] kids[k]).id,
        ) && content.nodes[kids[k].id] == kids[k] by {
            crate::content_walk::lemma_child_found(doc, Some(node.id), k);
            crate::operations::lemma_find_is_content(doc, kids[k].id);
        }
    } else {
        lemma_outline_prefix(doc, node, facts, operations, n - 1);
        let before = crate::operations::all_applied(content, operations.take(n - 1));
        let operation = operations[n - 1];
        assert(operations.take(n) =~= operations.take(n - 1).push(operation));
        crate::apply::lemma_carried_prefix(content, operations, n);
        assert(operations.take(n).drop_last() =~= operations.take(n - 1));
        assert(crate::operations::applicable(before, operation));
        if n == 1 {
            crate::operations::lemma_find_is_content(doc, node.id);
            assert(operations.take(0) =~= Seq::<Operation>::empty());
            assert(before == content);
        } else if n > 2 && n - 3 < kids.len() {
            let k = n - 3;
            assert(operations[2 + k] == (Operation::Reparent {
                id: kids[k].id,
                old_parent: kids[k].parent,
                old_index: kids[k].index,
                new_parent: Some(facts.blanks@[0].id),
                new_index: kids[k].index,
            }));
        } else if n > 2 {
            let k = n - 3 - kids.len();
            let strokes = own_strokes(node);
            let ink = crate::layer_components::inked(strokes);
            let first = crate::scene::next_index(doc.nodes@, Some(node.id));
            assert(crate::layer_components::outlines_stroke(
                operations[2 + kids.len() + k],
                facts,
                strokes,
                ink[k],
                node.id,
                crate::layer_components::key_behind(first, (k + 1) as nat),
            ));
        }
        crate::operations::lemma_reversible_push(content, operations.take(n - 1), operation);
        crate::content_walk::lemma_children_distinct(doc, Some(node.id));
        let after = crate::operations::all_applied(content, operations.take(n));
        assert forall|k: int|
            0 <= k < kids.len() && n <= 2 + k implies after.nodes.dom().contains(
            (#[trigger] kids[k]).id,
        ) && after.nodes[kids[k].id].id == kids[k].id && after.nodes[kids[k].id].parent
            == kids[k].parent && after.nodes[kids[k].id].index == kids[k].index by {
            assert(before.nodes.dom().contains(kids[k].id));
        }
    }
}

/// Outlining the strokes of a layer that is no text can be taken back, if it
/// goes through.
pub proof fn lemma_outline_reversible(
    doc: Doc,
    id: NodeId,
    facts: OutlineFacts,
    operations: Seq<Operation>,
)
    requires
        doc.well_formed(),
        crate::layer_components::outline_outcome(doc, id, facts, Ok(operations)),
        crate::operations::carried(doc.content(), operations),
        crate::scene::find(doc.nodes@, id) matches Some(node)
            && !crate::layer_components::is_text(node),
    ensures
        crate::operations::reversible(doc.content(), operations),
{
    crate::scene::lemma_find_has_id(doc.nodes@, id);
    let node = crate::scene::find(doc.nodes@, id)->0;
    lemma_outline_prefix(doc, node, facts, operations, operations.len() as int);
    assert(operations.take(operations.len() as int) =~= operations);
}

/// What can be taken back is taken back: the document is as it was before the
/// command.
pub proof fn lemma_command_undone(doc: Doc, operations: Seq<Operation>)
    requires
        doc.well_formed(),
        crate::operations::reversible(doc.content(), operations),
    ensures
        crate::operations::all_undone(
            crate::operations::all_applied(doc.content(), operations),
            operations,
        ) == doc.content(),
{
    crate::operations::lemma_doc_filed(doc);
    crate::operations::lemma_operations_undone(doc.content(), operations);
}

} // verus!
