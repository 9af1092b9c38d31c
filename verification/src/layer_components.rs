//! Layer commands that take components apart: deleting, flattening and
//! outlining strokes.

use std::sync::Arc;

use vstd::prelude::*;
use vstd::string::*;

use crate::document::{
    AnimationTrack, CanvasNode, ComponentDef, ComponentSet, Doc, GroupNode, IndexKey, NodeData,
    PathData, VectorNode,
};
use crate::ids::{holds, holds_component, ComponentId, NodeId};
use crate::layer_context_ops::{editable, paints, replace_data, targets};
use crate::layer_errors::LayerError;
use crate::operations::{extend, Operation};
use crate::paint::{share, Fill, FillList, Size, Stroke};
use crate::scalar::Scalar;

verus! {

// ---------------------------------------------------------------------------
// Components whose layers go away
// ---------------------------------------------------------------------------

/// The components drawn by one of the layers.
pub open spec fn drawn_by(components: Seq<ComponentDef>, layers: Seq<NodeId>) -> Seq<ComponentDef>
    decreases components.len(),
{
    if components.len() == 0 {
        Seq::empty()
    } else {
        let rest = drawn_by(components.drop_last(), layers);
        if layers.contains(components.last().root) {
            rest.push(components.last())
        } else {
            rest
        }
    }
}

pub open spec fn component_ids(components: Seq<ComponentDef>) -> Seq<ComponentId> {
    components.map_values(|def: ComponentDef| def.id)
}

/// The layer is an instance of one of the components.
pub open spec fn instance_of(
    nodes: Seq<CanvasNode>,
    id: NodeId,
    components: Seq<ComponentId>,
) -> bool {
    crate::scene::find(nodes, id) matches Some(node) && (*node.data matches NodeData::Instance(
        instance,
    ) && components.contains(instance.component))
}

/// The instances that stay behind when layers go away, in paint order.
pub open spec fn left_behind(
    nodes: Seq<CanvasNode>,
    ids: Seq<NodeId>,
    removed: Seq<NodeId>,
    components: Seq<ComponentId>,
) -> Seq<NodeId>
    decreases ids.len(),
{
    if ids.len() == 0 {
        Seq::empty()
    } else {
        let rest = left_behind(nodes, ids.drop_last(), removed, components);
        if !removed.contains(ids.last()) && instance_of(nodes, ids.last(), components) {
            rest.push(ids.last())
        } else {
            rest
        }
    }
}

/// The members of a variant set that stay.
pub open spec fn kept_members(members: Seq<ComponentId>, gone: Seq<ComponentId>) -> Seq<
    ComponentId,
>
    decreases members.len(),
{
    if members.len() == 0 {
        Seq::empty()
    } else {
        let rest = kept_members(members.drop_last(), gone);
        if gone.contains(members.last()) {
            rest
        } else {
            rest.push(members.last())
        }
    }
}

/// The set loses a member.
pub open spec fn loses_member(set: ComponentSet, gone: Seq<ComponentId>) -> bool {
    exists|i: int| 0 <= i < set.members@.len() && gone.contains(#[trigger] set.members@[i])
}

pub open spec fn losing_sets(sets: Seq<ComponentSet>, gone: Seq<ComponentId>) -> Seq<ComponentSet>
    decreases sets.len(),
{
    if sets.len() == 0 {
        Seq::empty()
    } else {
        let rest = losing_sets(sets.drop_last(), gone);
        if loses_member(sets.last(), gone) {
            rest.push(sets.last())
        } else {
            rest
        }
    }
}

/// The operation shrinks a variant set, or deletes it where no member stays.
/// The default moves to the first member where it went away.
pub open spec fn shrinks_set(
    operation: Operation,
    set: ComponentSet,
    gone: Seq<ComponentId>,
) -> bool {
    let kept = kept_members(set.members@, gone);
    if kept.len() > 0 {
        operation matches Operation::SetComponentSet { id, old, new } && {
            &&& id == set.id
            &&& *old == set
            &&& new.id == set.id
            &&& new.name == set.name
            &&& new.members@ == kept
            &&& new.default_variant == (if gone.contains(set.default_variant) {
                kept[0]
            } else {
                set.default_variant
            })
        }
    } else {
        operation matches Operation::DeleteComponentSet { id, set: old } && id == set.id && *old
            == set
    }
}

pub open spec fn deletes_component(operation: Operation, component: ComponentDef) -> bool {
    operation matches Operation::DeleteComponent { id, def } && id == component.id && *def
        == component
}

/// Lists of operations, one behind the other.
pub open spec fn joined(lists: Seq<Vec<Operation>>) -> Seq<Operation>
    decreases lists.len(),
{
    if lists.len() == 0 {
        Seq::empty()
    } else {
        joined(lists.drop_last()) + lists.last()@
    }
}

/// The operations that let components go with their layers: first every
/// instance left behind is detached, then the sets shrink, then the components
/// are deleted.
pub open spec fn releases(
    operations: Seq<Operation>,
    sets: Seq<ComponentSet>,
    components: Seq<ComponentDef>,
    detached: Seq<Operation>,
) -> bool {
    let gone = component_ids(components);
    let losing = losing_sets(sets, gone);
    let d = detached.len();
    &&& operations.len() == d + losing.len() + components.len()
    &&& operations.take(d as int) == detached
    &&& forall|k: int|
        0 <= k < losing.len() ==> shrinks_set(operations[d + k], #[trigger] losing[k], gone)
    &&& forall|k: int|
        0 <= k < components.len() ==> deletes_component(
            operations[d + losing.len() + k],
            #[trigger] components[k],
        )
}

/// There are operations that detach the instance at a place.
pub open spec fn detaches(detached: Seq<Vec<Operation>>, i: int) -> bool {
    i < detached.len() && detached[i]@.len() > 0
}

/// What letting go of the components below some layers does.
pub open spec fn release_outcome(
    doc: Doc,
    roots: Seq<NodeId>,
    detached: Seq<Vec<Operation>>,
    r: Result<Seq<Operation>, LayerError>,
) -> bool {
    let removed = crate::scene::forest(doc.nodes@, roots, doc.nodes@.len());
    let components = drawn_by(doc.components@, removed);
    let behind = left_behind(
        doc.nodes@,
        crate::scene::all_layers(doc.nodes@),
        removed,
        component_ids(components),
    );
    if components.len() == 0 {
        r == Ok::<Seq<Operation>, LayerError>(Seq::empty())
    } else if exists|i: int|
        0 <= i < behind.len() && !(#[trigger] detaches(detached, i)) {
        r == Err::<Seq<Operation>, LayerError>(LayerError::InstanceLost)
    } else {
        r is Ok && releases(
            r->Ok_0,
            doc.sets@,
            components,
            joined(detached.take(behind.len() as int)),
        )
    }
}

fn components_drawn(doc: &Doc, layers: &Vec<NodeId>) -> (r: (Vec<ComponentDef>, Vec<ComponentId>))
    ensures
        r.0@ == drawn_by(doc.components@, layers@),
        r.1@ == component_ids(r.0@),
{
    let mut defs: Vec<ComponentDef> = Vec::new();
    let mut ids: Vec<ComponentId> = Vec::new();
    let mut i: usize = 0;
    assert(doc.components@.take(0) =~= Seq::<ComponentDef>::empty());
    assert(ids@ =~= component_ids(defs@));
    while i < doc.components.len()
        invariant
            i <= doc.components@.len(),
            defs@ == drawn_by(doc.components@.take(i as int), layers@),
            ids@ == component_ids(defs@),
        decreases doc.components@.len() - i,
    {
        proof {
            assert(doc.components@.take(i + 1).drop_last() =~= doc.components@.take(i as int));
            assert(doc.components@.take(i + 1).last() == doc.components@[i as int]);
        }
        if holds(layers, doc.components[i].root) {
            let ghost before = defs@;
            ids.push(doc.components[i].id);
            defs.push(doc.components[i].copy());
            assert(ids@ =~= component_ids(defs@));
        }
        i = i + 1;
    }
    assert(doc.components@.take(doc.components@.len() as int) =~= doc.components@);
    (defs, ids)
}

/// The instances that would be left behind, in paint order, when the subtrees
/// of some layers go away.
pub fn dependent_instances(doc: &Doc, roots: &Vec<NodeId>) -> (ids: Vec<NodeId>)
    ensures
        ids@ == left_behind(
            doc.nodes@,
            crate::scene::all_layers(doc.nodes@),
            crate::scene::forest(doc.nodes@, roots@, doc.nodes@.len()),
            component_ids(
                drawn_by(
                    doc.components@,
                    crate::scene::forest(doc.nodes@, roots@, doc.nodes@.len()),
                ),
            ),
        ),
{
    let removed = doc.descendants_of_all(roots);
    let (_, gone) = components_drawn(doc, &removed);
    let all = doc.all_layers();
    let mut ids: Vec<NodeId> = Vec::new();
    let mut i: usize = 0;
    assert(all@.take(0) =~= Seq::<NodeId>::empty());
    while i < all.len()
        invariant
            i <= all@.len(),
            ids@ == left_behind(doc.nodes@, all@.take(i as int), removed@, gone@),
        decreases all@.len() - i,
    {
        proof {
            assert(all@.take(i + 1).drop_last() =~= all@.take(i as int));
            assert(all@.take(i + 1).last() == all@[i as int]);
        }
        if !holds(&removed, all[i]) {
            match doc.get(all[i]) {
                Some(node) => match &*node.data {
                    NodeData::Instance(instance) => {
                        if holds_component(&gone, instance.component) {
                            ids.push(all[i]);
                        }
                    },
                    _ => {},
                },
                None => {},
            }
        }
        i = i + 1;
    }
    assert(all@.take(all@.len() as int) =~= all@);
    ids
}

fn keep_members(members: &Vec<ComponentId>, gone: &Vec<ComponentId>) -> (kept: Vec<ComponentId>)
    ensures
        kept@ == kept_members(members@, gone@),
{
    let mut kept: Vec<ComponentId> = Vec::new();
    let mut i: usize = 0;
    assert(members@.take(0) =~= Seq::<ComponentId>::empty());
    while i < members.len()
        invariant
            i <= members@.len(),
            kept@ == kept_members(members@.take(i as int), gone@),
        decreases members@.len() - i,
    {
        proof {
            assert(members@.take(i + 1).drop_last() =~= members@.take(i as int));
            assert(members@.take(i + 1).last() == members@[i as int]);
        }
        if !holds_component(gone, members[i]) {
            kept.push(members[i]);
        }
        i = i + 1;
    }
    assert(members@.take(members@.len() as int) =~= members@);
    kept
}

fn any_gone(members: &Vec<ComponentId>, gone: &Vec<ComponentId>) -> (r: bool)
    ensures
        r == exists|i: int| 0 <= i < members@.len() && gone@.contains(#[trigger] members@[i]),
{
    let mut i: usize = 0;
    while i < members.len()
        invariant
            i <= members@.len(),
            forall|k: int| 0 <= k < i ==> !gone@.contains(#[trigger] members@[k]),
        decreases members@.len() - i,
    {
        if holds_component(gone, members[i]) {
            assert(gone@.contains(members@[i as int]));
            return true;
        }
        i = i + 1;
    }
    false
}

fn shrink_set(set: &ComponentSet, gone: &Vec<ComponentId>) -> (operation: Operation)
    ensures
        shrinks_set(operation, *set, gone@),
{
    let kept = keep_members(&set.members, gone);
    if kept.len() > 0 {
        let default_variant = if holds_component(gone, set.default_variant) {
            kept[0]
        } else {
            set.default_variant
        };
        Operation::SetComponentSet {
            id: set.id,
            old: Arc::new(set.copy()),
            new: Arc::new(
                ComponentSet {
                    id: set.id,
                    name: set.name.clone(),
                    members: Arc::new(kept),
                    default_variant,
                },
            ),
        }
    } else {
        Operation::DeleteComponentSet { id: set.id, set: Arc::new(set.copy()) }
    }
}

/// The operations that let components go when the subtrees of some layers go
/// away. `detached` holds, for every instance left behind, the operations that
/// turn it into plain layers.
pub fn release_components(
    doc: &Doc,
    roots: &Vec<NodeId>,
    detached: &Vec<Vec<Operation>>,
) -> (r: Result<Vec<Operation>, LayerError>)
    ensures
        release_outcome(*doc, roots@, detached@, crate::layer_moves::outcome_of(r)),
{
    let removed = doc.descendants_of_all(roots);
    let (defs, gone) = components_drawn(doc, &removed);
    let mut operations: Vec<Operation> = Vec::new();
    if defs.len() == 0 {
        assert(operations@ =~= Seq::<Operation>::empty());
        return Ok(operations);
    }
    let behind = dependent_instances(doc, roots);
    let mut i: usize = 0;
    assert(detached@.take(0) =~= Seq::<Vec<Operation>>::empty());
    assert(operations@ =~= Seq::<Operation>::empty());
    while i < behind.len()
        invariant
            i <= behind@.len(),
            i <= detached@.len(),
            operations@ == joined(detached@.take(i as int)),
            forall|k: int| 0 <= k < i ==> #[trigger] detaches(detached@, k),
            behind@ == left_behind(
                doc.nodes@,
                crate::scene::all_layers(doc.nodes@),
                removed@,
                gone@,
            ),
            removed@ == crate::scene::forest(doc.nodes@, roots@, doc.nodes@.len()),
            defs@ == drawn_by(doc.components@, removed@),
            gone@ == component_ids(defs@),
            defs@.len() > 0,
        decreases behind@.len() - i,
    {
        if i >= detached.len() || detached[i].len() == 0 {
            assert(!detaches(detached@, i as int));
            return Err(LayerError::InstanceLost);
        }
        proof {
            assert(detached@.take(i + 1).drop_last() =~= detached@.take(i as int));
            assert(detached@.take(i + 1).last() == detached@[i as int]);
        }
        extend(&mut operations, &detached[i]);
        i = i + 1;
    }
    let ghost lead = operations@;
    let ghost losing = losing_sets(doc.sets@, gone@);
    let mut s: usize = 0;
    assert(doc.sets@.take(0) =~= Seq::<ComponentSet>::empty());
    while s < doc.sets.len()
        invariant
            s <= doc.sets@.len(),
            operations@.len() == lead.len() + losing_sets(doc.sets@.take(s as int), gone@).len(),
            operations@.take(lead.len() as int) == lead,
            forall|k: int|
                0 <= k < losing_sets(doc.sets@.take(s as int), gone@).len() ==> shrinks_set(
                    operations@[lead.len() + k],
                    #[trigger] losing_sets(doc.sets@.take(s as int), gone@)[k],
                    gone@,
                ),
        decreases doc.sets@.len() - s,
    {
        let ghost head = losing_sets(doc.sets@.take(s as int), gone@);
        proof {
            assert(doc.sets@.take(s + 1).drop_last() =~= doc.sets@.take(s as int));
            assert(doc.sets@.take(s + 1).last() == doc.sets@[s as int]);
        }
        let set = &doc.sets[s];
        if any_gone(&set.members, &gone) {
            let ghost before = operations@;
            operations.push(shrink_set(set, &gone));
            proof {
                assert(operations@.take(lead.len() as int) =~= lead);
                let next = losing_sets(doc.sets@.take(s + 1), gone@);
                assert(next == head.push(*set));
                assert forall|k: int| 0 <= k < next.len() implies shrinks_set(
                    operations@[lead.len() + k],
                    #[trigger] next[k],
                    gone@,
                ) by {
                    if k < head.len() {
                        assert(next[k] == head[k]);
                        assert(operations@[lead.len() + k] == before[lead.len() + k]);
                    }
                }
            }
        }
        s = s + 1;
    }
    assert(doc.sets@.take(doc.sets@.len() as int) =~= doc.sets@);
    let mut c: usize = 0;
    while c < defs.len()
        invariant
            c <= defs@.len(),
            losing == losing_sets(doc.sets@, gone@),
            operations@.len() == lead.len() + losing.len() + c,
            operations@.take(lead.len() as int) == lead,
            forall|k: int|
                0 <= k < losing.len() ==> shrinks_set(
                    operations@[lead.len() + k],
                    #[trigger] losing[k],
                    gone@,
                ),
            forall|k: int|
                0 <= k < c ==> deletes_component(
                    operations@[lead.len() + losing.len() + k],
                    #[trigger] defs@[k],
                ),
        decreases defs@.len() - c,
    {
        let ghost before = operations@;
        operations.push(
            Operation::DeleteComponent { id: defs[c].id, def: Arc::new(defs[c].copy()) },
        );
        proof {
            assert(operations@.take(lead.len() as int) =~= lead);
            assert forall|k: int| 0 <= k < losing.len() implies shrinks_set(
                operations@[lead.len() + k],
                #[trigger] losing[k],
                gone@,
            ) by {
                assert(operations@[lead.len() + k] == before[lead.len() + k]);
            }
            assert forall|k: int| 0 <= k < c + 1 implies deletes_component(
                operations@[lead.len() + losing.len() + k],
                #[trigger] defs@[k],
            ) by {
                if k < c {
                    assert(operations@[lead.len() + losing.len() + k] == before[lead.len()
                        + losing.len() + k]);
                }
            }
        }
        c = c + 1;
    }
    proof {
        assert(detached@.take(behind@.len() as int) == detached@.take(i as int));
    }
    Ok(operations)
}

// ---------------------------------------------------------------------------
// Deleting
// ---------------------------------------------------------------------------

/// What deleting layers does: the components drawn by them are let go, then
/// the host's operations delete the layers.
pub open spec fn delete_outcome(
    doc: Doc,
    id: NodeId,
    selection_roots: Seq<NodeId>,
    detached: Seq<Vec<Operation>>,
    deletions: Seq<Operation>,
    r: Result<Seq<Operation>, LayerError>,
) -> bool {
    let ids = crate::layer_context_ops::target_ids(doc, id, selection_roots);
    if crate::layer_context_ops::any_locked(doc, ids) {
        r == Err::<Seq<Operation>, LayerError>(LayerError::SelectedLocked)
    } else {
        ||| r is Err && release_outcome(doc, ids, detached, r)
        ||| exists|released: Seq<Operation>|
            #![trigger release_outcome(doc, ids, detached, Ok(released))]
            release_outcome(doc, ids, detached, Ok(released)) && r == (
            if crate::operations::carried(doc.content(), released) {
                Ok::<Seq<Operation>, LayerError>(released + deletions)
            } else {
                Err::<Seq<Operation>, LayerError>(LayerError::NotApplied)
            })
    }
}

/// Deletes the targets. Instances of deleted components stay as plain layers.
pub fn delete_layers(
    doc: &Doc,
    id: NodeId,
    selection_roots: &Vec<NodeId>,
    detached: &Vec<Vec<Operation>>,
    deletions: &Vec<Operation>,
) -> (r: Result<Vec<Operation>, LayerError>)
    requires
        doc.well_formed(),
    ensures
        delete_outcome(
            *doc,
            id,
            selection_roots@,
            detached@,
            deletions@,
            crate::layer_moves::outcome_of(r),
        ),
{
    let ids = targets(doc, id, selection_roots);
    let mut i: usize = 0;
    while i < ids.len()
        invariant
            i <= ids@.len(),
            ids@ == crate::layer_context_ops::target_ids(*doc, id, selection_roots@),
            forall|k: int|
                0 <= k < i ==> crate::layer_context_ops::can_edit(*doc, #[trigger] ids@[k]),
        decreases ids@.len() - i,
    {
        if !editable(doc, ids[i]) {
            assert(!crate::layer_context_ops::can_edit(*doc, ids@[i as int]));
            return Err(LayerError::SelectedLocked);
        }
        i = i + 1;
    }
    match release_components(doc, &ids, detached) {
        Err(error) => Err(error),
        Ok(released) => {
            let mut scratch = doc.copy();
            proof {
                crate::layer_context_ops::lemma_same_content(scratch, *doc);
                assert(release_outcome(*doc, ids@, detached@, Ok(released@)));
            }
            match scratch.apply_all(&released) {
                Err(_) => Err(LayerError::NotApplied),
                Ok(_) => {
                    let mut operations = released;
                    extend(&mut operations, deletions);
                    Ok(operations)
                },
            }
        },
    }
}

// ---------------------------------------------------------------------------
// Flattening
// ---------------------------------------------------------------------------

/// The paints of the last layer of a list that shows any.
pub open spec fn last_paints(nodes: Seq<CanvasNode>, ids: Seq<NodeId>) -> Seq<Fill>
    decreases ids.len(),
{
    if ids.len() == 0 {
        Seq::empty()
    } else {
        match crate::scene::find(nodes, ids.last()) {
            Some(node) => if crate::layer_context_ops::shown_paints(*node.data).len() > 0 {
                crate::layer_context_ops::shown_paints(*node.data)
            } else {
                last_paints(nodes, ids.drop_last())
            },
            None => last_paints(nodes, ids.drop_last()),
        }
    }
}

/// The paints of a flattened layer: its own, or else those of the topmost layer
/// below it that shows any.
pub open spec fn flat_paints(nodes: Seq<CanvasNode>, node: CanvasNode) -> Seq<Fill> {
    let own = crate::layer_context_ops::shown_paints(*node.data);
    if own.len() > 0 {
        own
    } else {
        last_paints(nodes, crate::scene::descendants(nodes, node.id))
    }
}

/// The layers of a list of ids that are there.
pub open spec fn layers_of(nodes: Seq<CanvasNode>, ids: Seq<NodeId>) -> Seq<CanvasNode>
    decreases ids.len(),
{
    if ids.len() == 0 {
        Seq::empty()
    } else {
        let rest = layers_of(nodes, ids.drop_last());
        match crate::scene::find(nodes, ids.last()) {
            Some(node) => rest.push(node),
            None => rest,
        }
    }
}

/// The operation deletes the subtree of a layer.
pub open spec fn deletes_subtree(
    operation: Operation,
    nodes: Seq<CanvasNode>,
    id: NodeId,
) -> bool {
    operation matches Operation::DeleteSubtree { snapshot } && snapshot@ == layers_of(
        nodes,
        crate::scene::descendants(nodes, id),
    )
}

/// The tracks that move a layer below another.
pub open spec fn inner_tracks(
    nodes: Seq<CanvasNode>,
    tracks: Seq<AnimationTrack>,
    id: NodeId,
) -> Seq<AnimationTrack>
    decreases tracks.len(),
{
    if tracks.len() == 0 {
        Seq::empty()
    } else {
        let rest = inner_tracks(nodes, tracks.drop_last(), id);
        if tracks.last().node != id && crate::scene::is_above(nodes, id, tracks.last().node) {
            rest.push(tracks.last())
        } else {
            rest
        }
    }
}

/// The operations that turn a layer into one outline: what is below goes away,
/// with the animation of it, and the layer becomes a vector.
pub open spec fn flattens(
    operations: Seq<Operation>,
    doc: Doc,
    node: CanvasNode,
    path: PathData,
) -> bool {
    let kids = crate::scene::children(doc.nodes@, Some(node.id));
    let tracks = inner_tracks(doc.nodes@, doc.tracks@, node.id);
    &&& operations.len() == kids.len() + tracks.len() + 1
    &&& forall|k: int|
        0 <= k < kids.len() ==> deletes_subtree(
            operations[k],
            doc.nodes@,
            (#[trigger] kids[k]).id,
        )
    &&& forall|k: int|
        0 <= k < tracks.len() ==> operations[kids.len() + k] == (Operation::SetAnimationTrack {
            clip: tracks[k].clip,
            track: (#[trigger] tracks[k]).id,
            old: Some(tracks[k]),
            new: None,
        })
    &&& operations.last() matches Operation::ReplaceData { id, old, new } && id == node.id && old
        == node.data && (*new matches NodeData::Vector(vector) && {
        &&& vector.path == path
        &&& vector.fills@ == flat_paints(doc.nodes@, node)
        &&& vector.strokes@ == crate::layer_context_ops::shown_strokes(*node.data)
        &&& vector.corner_radius is None
        &&& vector.corner_radii is None
        &&& vector.corner_smoothing is None
        &&& vector.parametric is None
        &&& vector.local_size is None
    })
}

fn snapshot_of(doc: &Doc, id: NodeId) -> (layers: Vec<CanvasNode>)
    ensures
        layers@ == layers_of(doc.nodes@, crate::scene::descendants(doc.nodes@, id)),
{
    let ids = doc.descendants_of(id);
    let mut layers: Vec<CanvasNode> = Vec::new();
    let mut i: usize = 0;
    assert(ids@.take(0) =~= Seq::<NodeId>::empty());
    while i < ids.len()
        invariant
            i <= ids@.len(),
            layers@ == layers_of(doc.nodes@, ids@.take(i as int)),
        decreases ids@.len() - i,
    {
        proof {
            assert(ids@.take(i + 1).drop_last() =~= ids@.take(i as int));
            assert(ids@.take(i + 1).last() == ids@[i as int]);
        }
        match doc.get(ids[i]) {
            Some(node) => {
                layers.push(node.copy());
            },
            None => {},
        }
        i = i + 1;
    }
    assert(ids@.take(ids@.len() as int) =~= ids@);
    layers
}

fn paints_when_flat(doc: &Doc, node: &CanvasNode) -> (fills: FillList)
    ensures
        fills@ == flat_paints(doc.nodes@, *node),
{
    let own = paints(&node.data);
    if !own.is_empty() {
        return own;
    }
    let ids = doc.descendants_of(node.id);
    let mut fills = own;
    let mut i: usize = 0;
    assert(ids@.take(0) =~= Seq::<NodeId>::empty());
    assert(fills@ =~= Seq::<Fill>::empty());
    while i < ids.len()
        invariant
            i <= ids@.len(),
            fills@ == last_paints(doc.nodes@, ids@.take(i as int)),
        decreases ids@.len() - i,
    {
        proof {
            assert(ids@.take(i + 1).drop_last() =~= ids@.take(i as int));
            assert(ids@.take(i + 1).last() == ids@[i as int]);
        }
        match doc.get(ids[i]) {
            Some(layer) => {
                let shown = paints(&layer.data);
                if !shown.is_empty() {
                    fills = shown;
                }
            },
            None => {},
        }
        i = i + 1;
    }
    assert(ids@.take(ids@.len() as int) =~= ids@);
    fills
}

fn strokes_when_flat(data: &NodeData) -> (strokes: Arc<Vec<Stroke>>)
    ensures
        strokes@ == crate::layer_context_ops::shown_strokes(*data),
{
    match data {
        NodeData::Vector(value) => share(&value.strokes),
        NodeData::Boolean(value) => share(&value.strokes),
        NodeData::Group(value) => share(&value.strokes),
        _ => Arc::new(Vec::new()),
    }
}

fn flatten_plain(doc: &Doc, node: &CanvasNode, path: &PathData) -> (operations: Vec<Operation>)
    ensures
        flattens(operations@, *doc, *node, *path),
{
    let ghost kids = crate::scene::children(doc.nodes@, Some(node.id));
    let ghost tracks = inner_tracks(doc.nodes@, doc.tracks@, node.id);
    let fills = paints_when_flat(doc, node);
    let children = doc.children_of(Some(node.id));
    let mut operations: Vec<Operation> = Vec::new();
    let mut i: usize = 0;
    while i < children.len()
        invariant
            i <= children@.len(),
            kids == crate::scene::children(doc.nodes@, Some(node.id)),
            children@ == crate::scene::ids_of(kids),
            operations@.len() == i,
            forall|k: int|
                0 <= k < i ==> deletes_subtree(
                    operations@[k],
                    doc.nodes@,
                    (#[trigger] kids[k]).id,
                ),
        decreases children@.len() - i,
    {
        let ghost before = operations@;
        assert(children@[i as int] == kids[i as int].id);
        operations.push(
            Operation::DeleteSubtree { snapshot: Arc::new(snapshot_of(doc, children[i])) },
        );
        proof {
            assert forall|k: int| 0 <= k < i + 1 implies deletes_subtree(
                operations@[k],
                doc.nodes@,
                (#[trigger] kids[k]).id,
            ) by {
                if k < i {
                    assert(operations@[k] == before[k]);
                }
            }
        }
        i = i + 1;
    }
    let ghost n = kids.len();
    let mut t: usize = 0;
    assert(doc.tracks@.take(0) =~= Seq::<AnimationTrack>::empty());
    while t < doc.tracks.len()
        invariant
            t <= doc.tracks@.len(),
            n == kids.len(),
            operations@.len() == n + inner_tracks(
                doc.nodes@,
                doc.tracks@.take(t as int),
                node.id,
            ).len(),
            forall|k: int|
                0 <= k < kids.len() ==> deletes_subtree(
                    operations@[k],
                    doc.nodes@,
                    (#[trigger] kids[k]).id,
                ),
            forall|k: int|
                0 <= k < inner_tracks(doc.nodes@, doc.tracks@.take(t as int), node.id).len()
                    ==> operations@[n + k] == (Operation::SetAnimationTrack {
                    clip: inner_tracks(doc.nodes@, doc.tracks@.take(t as int), node.id)[k].clip,
                    track: (#[trigger] inner_tracks(
                        doc.nodes@,
                        doc.tracks@.take(t as int),
                        node.id,
                    )[k]).id,
                    old: Some(
                        inner_tracks(doc.nodes@, doc.tracks@.take(t as int), node.id)[k],
                    ),
                    new: None,
                }),
        decreases doc.tracks@.len() - t,
    {
        let track = doc.tracks[t];
        let ghost head = inner_tracks(doc.nodes@, doc.tracks@.take(t as int), node.id);
        let ghost before = operations@;
        proof {
            assert(doc.tracks@.take(t + 1).drop_last() =~= doc.tracks@.take(t as int));
            assert(doc.tracks@.take(t + 1).last() == track);
        }
        if track.node != node.id && doc.is_ancestor(node.id, track.node) {
            operations.push(
                Operation::SetAnimationTrack {
                    clip: track.clip,
                    track: track.id,
                    old: Some(track),
                    new: None,
                },
            );
            proof {
                let next = inner_tracks(doc.nodes@, doc.tracks@.take(t + 1), node.id);
                assert(next == head.push(track));
                assert forall|k: int| 0 <= k < next.len() implies operations@[n + k] == (
                Operation::SetAnimationTrack {
                    clip: next[k].clip,
                    track: (#[trigger] next[k]).id,
                    old: Some(next[k]),
                    new: None,
                }) by {
                    if k < head.len() {
                        assert(next[k] == head[k]);
                        assert(operations@[n + k] == before[n + k]);
                    }
                }
                assert forall|k: int| 0 <= k < kids.len() implies deletes_subtree(
                    operations@[k],
                    doc.nodes@,
                    (#[trigger] kids[k]).id,
                ) by {
                    assert(operations@[k] == before[k]);
                }
            }
        }
        t = t + 1;
    }
    assert(doc.tracks@.take(doc.tracks@.len() as int) =~= doc.tracks@);
    let ghost before = operations@;
    let vector = VectorNode::outlined(path.copy(), fills, strokes_when_flat(&node.data));
    operations.push(replace_data(node, NodeData::Vector(vector)));
    proof {
        assert forall|k: int| 0 <= k < kids.len() implies deletes_subtree(
            operations@[k],
            doc.nodes@,
            (#[trigger] kids[k]).id,
        ) by {
            assert(operations@[k] == before[k]);
        }
        assert forall|k: int| 0 <= k < tracks.len() implies operations@[kids.len() + k] == (
        Operation::SetAnimationTrack {
            clip: tracks[k].clip,
            track: (#[trigger] tracks[k]).id,
            old: Some(tracks[k]),
            new: None,
        }) by {
            assert(operations@[n + k] == before[n + k]);
        }
    }
    operations
}

/// What the host prepares for flattening: the operations that detach the layer
/// where it is an instance, those that detach the instances left behind, and
/// the outline of what the layer then shows.
#[derive(Debug, PartialEq)]
pub struct FlattenFacts {
    pub detached: Vec<Operation>,
    pub detached_behind: Vec<Vec<Operation>>,
    pub outline: Result<PathData, LayerError>,
}

/// The layer, in a document that `lead` has prepared, is flattened.
pub open spec fn flat_outcome(
    doc: Doc,
    id: NodeId,
    lead: Seq<Operation>,
    outline: Result<PathData, LayerError>,
    r: Result<Seq<Operation>, LayerError>,
) -> bool {
    match crate::scene::find(doc.nodes@, id) {
        None => r == Err::<Seq<Operation>, LayerError>(LayerError::MissingLayer),
        Some(node) => match outline {
            Err(error) => r == Err::<Seq<Operation>, LayerError>(error),
            Ok(path) => r is Ok && r->Ok_0.len() >= lead.len() && r->Ok_0.take(lead.len() as int)
                == lead && flattens(r->Ok_0.skip(lead.len() as int), doc, node, path),
        },
    }
}

/// Flattening where the components drawn by the layer are let go first.
/// `scratch` is the document once they are.
pub open spec fn release_then_flat(
    doc: Doc,
    id: NodeId,
    lead: Seq<Operation>,
    facts: FlattenFacts,
    released: Seq<Operation>,
    scratch: Doc,
    r: Result<Seq<Operation>, LayerError>,
) -> bool {
    &&& release_outcome(doc, seq![id], facts.detached_behind@, Ok(released))
    &&& if !crate::operations::carried(doc.content(), released) {
        r == Err::<Seq<Operation>, LayerError>(LayerError::NotApplied)
    } else {
        &&& scratch.well_formed()
        &&& scratch.content() == crate::operations::all_applied(doc.content(), released)
        &&& released.len() == 0 ==> scratch == doc
        &&& flat_outcome(scratch, id, lead + released, facts.outline, r)
    }
}

/// Flattening a layer that is no instance.
pub open spec fn flatten_layer_outcome(
    doc: Doc,
    id: NodeId,
    lead: Seq<Operation>,
    facts: FlattenFacts,
    r: Result<Seq<Operation>, LayerError>,
) -> bool {
    ||| r is Err && release_outcome(doc, seq![id], facts.detached_behind@, r)
    ||| exists|released: Seq<Operation>, scratch: Doc|
        release_then_flat(doc, id, lead, facts, released, scratch, r)
}

/// What flattening does: an instance is detached first.
pub open spec fn flatten_outcome(
    doc: Doc,
    id: NodeId,
    facts: FlattenFacts,
    r: Result<Seq<Operation>, LayerError>,
) -> bool {
    match crate::scene::find(doc.nodes@, id) {
        None => r == Err::<Seq<Operation>, LayerError>(LayerError::MissingLayer),
        Some(node) => if *node.data is Instance {
            if facts.detached@.len() == 0 {
                r == Err::<Seq<Operation>, LayerError>(LayerError::NoMainComponent)
            } else if !crate::operations::carried(doc.content(), facts.detached@) {
                r == Err::<Seq<Operation>, LayerError>(LayerError::NotApplied)
            } else {
                exists|plain: Doc|
                    plain.well_formed() && plain.content() == crate::operations::all_applied(
                        doc.content(),
                        facts.detached@,
                    ) && #[trigger] flatten_layer_outcome(plain, id, facts.detached@, facts, r)
            }
        } else {
            flatten_layer_outcome(doc, id, Seq::empty(), facts, r)
        },
    }
}

fn flatten_layer(
    doc: &Doc,
    id: NodeId,
    lead: Vec<Operation>,
    facts: &FlattenFacts,
) -> (r: Result<Vec<Operation>, LayerError>)
    requires
        doc.well_formed(),
    ensures
        flatten_layer_outcome(*doc, id, lead@, *facts, crate::layer_moves::outcome_of(r)),
{
    let mut roots: Vec<NodeId> = Vec::new();
    roots.push(id);
    assert(roots@ =~= seq![id]);
    match release_components(doc, &roots, &facts.detached_behind) {
        Err(error) => Err(error),
        Ok(released) => {
            let ghost wanted = released@;
            if released.len() == 0 {
                let r = finish_flatten(doc, id, lead, &facts.outline);
                proof {
                    assert(wanted =~= Seq::<Operation>::empty());
                    assert(lead@ + wanted =~= lead@);
                    assert(release_then_flat(
                        *doc,
                        id,
                        lead@,
                        *facts,
                        wanted,
                        *doc,
                        crate::layer_moves::outcome_of(r),
                    ));
                }
                return r;
            }
            let mut scratch = doc.copy();
            proof {
                crate::layer_context_ops::lemma_same_content(scratch, *doc);
            }
            match scratch.apply_all(&released) {
                Err(_) => {
                    let r: Result<Vec<Operation>, LayerError> = Err(LayerError::NotApplied);
                    proof {
                        assert(release_then_flat(
                            *doc,
                            id,
                            lead@,
                            *facts,
                            wanted,
                            *doc,
                            crate::layer_moves::outcome_of(r),
                        ));
                    }
                    r
                },
                Ok(_) => {
                    let ghost start = lead@;
                    let mut before = lead;
                    extend(&mut before, &released);
                    let r = finish_flatten(&scratch, id, before, &facts.outline);
                    proof {
                        assert(release_then_flat(
                            *doc,
                            id,
                            start,
                            *facts,
                            wanted,
                            scratch,
                            crate::layer_moves::outcome_of(r),
                        ));
                    }
                    r
                },
            }
        },
    }
}

fn finish_flatten(
    doc: &Doc,
    id: NodeId,
    lead: Vec<Operation>,
    outline: &Result<PathData, LayerError>,
) -> (r: Result<Vec<Operation>, LayerError>)
    ensures
        flat_outcome(*doc, id, lead@, *outline, crate::layer_moves::outcome_of(r)),
{
    match doc.get(id) {
        None => Err(LayerError::MissingLayer),
        Some(node) => match outline {
            Err(error) => Err(error.copy()),
            Ok(path) => {
                let ghost start = lead@;
                let flat = flatten_plain(doc, node, path);
                let mut operations = lead;
                extend(&mut operations, &flat);
                assert(operations@.take(start.len() as int) =~= start);
                assert(operations@.skip(start.len() as int) =~= flat@);
                Ok(operations)
            },
        },
    }
}

/// Turns a layer and everything below it into one outline.
pub fn flatten(doc: &Doc, id: NodeId, facts: &FlattenFacts) -> (r: Result<
    Vec<Operation>,
    LayerError,
>)
    requires
        doc.well_formed(),
    ensures
        flatten_outcome(*doc, id, *facts, crate::layer_moves::outcome_of(r)),
{
    let instance = match doc.get(id) {
        None => {
            return Err(LayerError::MissingLayer);
        },
        Some(node) => match &*node.data {
            NodeData::Instance(_) => true,
            _ => false,
        },
    };
    let mut lead: Vec<Operation> = Vec::new();
    if !instance {
        assert(lead@ =~= Seq::<Operation>::empty());
        return flatten_layer(doc, id, lead, facts);
    }
    if facts.detached.len() == 0 {
        return Err(LayerError::NoMainComponent);
    }
    let mut plain = doc.copy();
    proof {
        crate::layer_context_ops::lemma_same_content(plain, *doc);
    }
    match plain.apply_all(&facts.detached) {
        Err(_) => Err(LayerError::NotApplied),
        Ok(_) => {
            extend(&mut lead, &facts.detached);
            assert(lead@ =~= facts.detached@);
            let r = flatten_layer(&plain, id, lead, facts);
            assert(flatten_layer_outcome(
                plain,
                id,
                facts.detached@,
                *facts,
                crate::layer_moves::outcome_of(r),
            ));
            r
        },
    }
}

// ---------------------------------------------------------------------------
// Outlining strokes
// ---------------------------------------------------------------------------

/// A stroke that leaves something to outline.
pub open spec fn leaves_ink(stroke: Stroke) -> bool {
    !(stroke.width.le(Scalar::of(crate::scalar::ZERO)) && stroke.per_side is None)
}

/// What the host prepares for outlining strokes: the box that the layer shows,
/// whether its own outline could be made, the outline of every stroke, and
/// blank layers with ids of their own, one more than there are strokes.
#[derive(Debug, PartialEq)]
pub struct OutlineFacts {
    pub flatten: FlattenFacts,
    pub local_size: Option<Size>,
    pub outline_error: Option<LayerError>,
    pub stroke_paths: Vec<Result<PathData, LayerError>>,
    pub blanks: Vec<CanvasNode>,
}

/// The data without its strokes.
pub open spec fn unstroked(old: NodeData, new: NodeData) -> bool {
    match (old, new) {
        (NodeData::Vector(a), NodeData::Vector(b)) => b == (VectorNode { strokes: b.strokes, ..a })
            && b.strokes@.len() == 0,
        (NodeData::Group(a), NodeData::Group(b)) => b == (GroupNode { strokes: b.strokes, ..a })
            && b.strokes@.len() == 0,
        (NodeData::Boolean(a), NodeData::Boolean(b)) => b.op == a.op && b.fills == a.fills
            && b.strokes@.len() == 0,
        _ => false,
    }
}

/// The operation creates a layer from a blank, below a parent, with a name and
/// a key.
pub open spec fn creates_from(
    operation: Operation,
    blank: CanvasNode,
    name: Seq<char>,
    parent: NodeId,
    index: IndexKey,
) -> bool {
    operation matches Operation::CreateNode { node } && {
        &&& *node == (CanvasNode {
            name: node.name,
            parent: Some(parent),
            index: index,
            data: node.data,
            ..blank
        })
        &&& node.name@ == name
    }
}

/// The strokes of a list that leave ink, with the place of each.
pub open spec fn inked(strokes: Seq<Stroke>) -> Seq<int>
    decreases strokes.len(),
{
    if strokes.len() == 0 {
        Seq::empty()
    } else {
        let rest = inked(strokes.drop_last());
        if leaves_ink(strokes.last()) {
            rest.push(strokes.len() - 1)
        } else {
            rest
        }
    }
}

/// The `n`-th key behind another.
pub open spec fn key_behind(key: IndexKey, n: nat) -> IndexKey
    decreases n,
{
    if n == 0 {
        key
    } else {
        IndexKey::after(key_behind(key, (n - 1) as nat))
    }
}

/// The operations that outline strokes. The layer becomes a bare group; what it
/// was, without strokes, becomes its first child and takes its children along;
/// every stroke becomes an outline in front of it.
pub open spec fn outlines(
    operations: Seq<Operation>,
    doc: Doc,
    node: CanvasNode,
    facts: OutlineFacts,
) -> bool {
    let strokes = crate::layer_context_ops::shown_strokes(*node.data);
    let kids = crate::scene::children(doc.nodes@, Some(node.id));
    let ink = inked(strokes);
    let first = crate::scene::next_index(doc.nodes@, Some(node.id));
    &&& operations.len() == 2 + kids.len() + ink.len()
    &&& operations[0] matches Operation::ReplaceData { id, old, new } && id == node.id && old
        == node.data && (*new matches NodeData::Group(group) && {
        &&& group.local_size == facts.local_size
        &&& group.clip_size is None
        &&& group.background is None
        &&& group.background_fills@.len() == 0
        &&& group.strokes@.len() == 0
        &&& group.auto_layout is None
        &&& !group.frame_surface
        &&& group.corner_radius is None
        &&& group.corner_radii is None
        &&& group.corner_smoothing is None
    })
    &&& creates_from(operations[1], facts.blanks@[0], "Fill"@, node.id, first)
    &&& operations[1] matches Operation::CreateNode { node: content } && unstroked(
        *node.data,
        *content.data,
    )
    &&& forall|k: int|
        0 <= k < kids.len() ==> operations[2 + k] == (Operation::Reparent {
            id: (#[trigger] kids[k]).id,
            old_parent: kids[k].parent,
            old_index: kids[k].index,
            new_parent: Some(facts.blanks@[0].id),
            new_index: kids[k].index,
        })
    &&& forall|k: int|
        0 <= k < ink.len() ==> outlines_stroke(
            operations[2 + kids.len() + k],
            facts,
            strokes,
            #[trigger] ink[k],
            node.id,
            key_behind(first, (k + 1) as nat),
        )
}

/// The operation creates the outline of one stroke.
pub open spec fn outlines_stroke(
    operation: Operation,
    facts: OutlineFacts,
    strokes: Seq<Stroke>,
    place: int,
    parent: NodeId,
    index: IndexKey,
) -> bool {
    &&& creates_from(operation, facts.blanks@[place + 1], "Outline"@, parent, index)
    &&& operation matches Operation::CreateNode { node } && (*node.data matches NodeData::Vector(
        vector,
    ) && {
        &&& facts.stroke_paths@[place] == Ok::<PathData, LayerError>(vector.path)
        &&& vector.fills@ == seq![strokes[place].paint]
        &&& vector.strokes@.len() == 0
        &&& vector.parametric is None
        &&& vector.corner_radius is None
        &&& vector.corner_radii is None
        &&& vector.corner_smoothing is None
        &&& vector.local_size is None
    })
}

/// The first stroke with ink whose outline could not be made.
pub open spec fn failed_path(
    facts: OutlineFacts,
    strokes: Seq<Stroke>,
    n: int,
) -> Option<LayerError>
    decreases n,
{
    if n <= 0 {
        None
    } else {
        match failed_path(facts, strokes, n - 1) {
            Some(error) => Some(error),
            None => if leaves_ink(strokes[n - 1]) {
                match facts.stroke_paths@[n - 1] {
                    Ok(_) => None,
                    Err(error) => Some(error),
                }
            } else {
                None
            },
        }
    }
}

/// The host has prepared a path and a blank for every stroke.
pub open spec fn prepared(doc: Doc, id: NodeId, facts: OutlineFacts) -> bool {
    crate::scene::find(doc.nodes@, id) matches Some(node) ==> {
        let n = crate::layer_context_ops::shown_strokes(*node.data).len();
        n <= facts.stroke_paths@.len() && n < facts.blanks@.len()
    }
}

pub open spec fn outline_outcome(
    doc: Doc,
    id: NodeId,
    facts: OutlineFacts,
    r: Result<Seq<Operation>, LayerError>,
) -> bool {
    match crate::scene::find(doc.nodes@, id) {
        None => r == Err::<Seq<Operation>, LayerError>(LayerError::MissingLayer),
        Some(node) => {
            let strokes = crate::layer_context_ops::shown_strokes(*node.data);
            if *node.data is Text {
                flatten_outcome(doc, id, facts.flatten, r)
            } else if !(*node.data is Vector || *node.data is Group || *node.data is Boolean) {
                r == Err::<Seq<Operation>, LayerError>(LayerError::NoStrokes)
            } else if strokes.len() == 0 {
                r == Err::<Seq<Operation>, LayerError>(LayerError::NothingToOutline)
            } else if *node.data is Group && facts.local_size is None {
                r == Err::<Seq<Operation>, LayerError>(LayerError::FrameWithoutBounds)
            } else if !(*node.data is Group) && facts.outline_error is Some {
                r == Err::<Seq<Operation>, LayerError>(facts.outline_error->0)
            } else {
                match failed_path(facts, strokes, strokes.len() as int) {
                    Some(error) => r == Err::<Seq<Operation>, LayerError>(error),
                    None => r is Ok && outlines(r->Ok_0, doc, node, facts),
                }
            }
        },
    }
}

fn without_strokes(data: &NodeData) -> (r: NodeData)
    requires
        *data is Vector || *data is Group || *data is Boolean,
    ensures
        unstroked(*data, r),
{
    match data.copy() {
        NodeData::Vector(value) => NodeData::Vector(
            VectorNode { strokes: Arc::new(Vec::new()), ..value },
        ),
        NodeData::Group(value) => NodeData::Group(
            GroupNode { strokes: Arc::new(Vec::new()), ..value },
        ),
        NodeData::Boolean(value) => NodeData::Boolean(
            crate::document::BooleanNode { strokes: Arc::new(Vec::new()), ..value },
        ),
        other => other,
    }
}

fn created(
    blank: &CanvasNode,
    name: &str,
    parent: NodeId,
    index: IndexKey,
    data: NodeData,
) -> (operation: Operation)
    ensures
        creates_from(operation, *blank, name@, parent, index),
        operation matches Operation::CreateNode { node } && *node.data == data,
{
    let node = CanvasNode {
        name: name.to_owned(),
        parent: Some(parent),
        index,
        data: Arc::new(data),
        ..blank.copy()
    };
    Operation::CreateNode { node: Arc::new(node) }
}

fn has_ink(stroke: &Stroke) -> (r: bool)
    ensures
        r == leaves_ink(*stroke),
{
    !(stroke.width.at_most(Scalar::of(crate::scalar::ZERO)) && stroke.per_side.is_none())
}

/// Turns the strokes of a layer into outlines of their own.
pub fn outline_strokes(doc: &Doc, id: NodeId, facts: &OutlineFacts) -> (r: Result<
    Vec<Operation>,
    LayerError,
>)
    requires
        doc.well_formed(),
        prepared(*doc, id, *facts),
    ensures
        outline_outcome(*doc, id, *facts, crate::layer_moves::outcome_of(r)),
{
    let node = match doc.get(id) {
        None => {
            return Err(LayerError::MissingLayer);
        },
        Some(node) => node,
    };
    let is_group = match &*node.data {
        NodeData::Text(_) => {
            return flatten(doc, id, &facts.flatten);
        },
        NodeData::Group(_) => true,
        NodeData::Vector(_) => false,
        NodeData::Boolean(_) => false,
        _ => {
            return Err(LayerError::NoStrokes);
        },
    };
    let strokes = strokes_when_flat(&node.data);
    if strokes.len() == 0 {
        return Err(LayerError::NothingToOutline);
    }
    if is_group {
        if facts.local_size.is_none() {
            return Err(LayerError::FrameWithoutBounds);
        }
    } else {
        match &facts.outline_error {
            Some(error) => {
                return Err(error.copy());
            },
            None => {},
        }
    }
    let ghost kids = crate::scene::children(doc.nodes@, Some(node.id));
    let ghost first = crate::scene::next_index(doc.nodes@, Some(node.id));
    let mut operations: Vec<Operation> = Vec::new();
    let group = GroupNode { local_size: facts.local_size, ..GroupNode::plain() };
    operations.push(replace_data(node, NodeData::Group(group)));
    let mut index = doc.next_child_index(Some(id));
    let content_id = facts.blanks[0].id;
    operations.push(
        created(&facts.blanks[0], "Fill", id, index, without_strokes(&node.data)),
    );
    let ghost head = operations@;
    let children = doc.children_of(Some(id));
    let mut i: usize = 0;
    while i < children.len()
        invariant
            i <= children@.len(),
            doc.well_formed(),
            kids == crate::scene::children(doc.nodes@, Some(node.id)),
            node.id == id,
            children@ == crate::scene::ids_of(kids),
            operations@.len() == 2 + i,
            head.len() == 2,
            operations@[0] == head[0],
            operations@[1] == head[1],
            forall|k: int|
                0 <= k < i ==> operations@[2 + k] == (Operation::Reparent {
                    id: (#[trigger] kids[k]).id,
                    old_parent: kids[k].parent,
                    old_index: kids[k].index,
                    new_parent: Some(content_id),
                    new_index: kids[k].index,
                }),
        decreases children@.len() - i,
    {
        let ghost before = operations@;
        proof {
            assert(children@[i as int] == kids[i as int].id);
            crate::content_walk::lemma_children_members(doc.nodes@, Some(node.id));
            assert(kids.contains(kids[i as int]));
            let at = choose|at: int| 0 <= at < doc.nodes@.len() && doc.nodes@[at] == kids[i as int];
            crate::keyed::lemma_keyed_at(doc.nodes@, crate::operations::node_key(), at);
            crate::operations::lemma_find_is_content(*doc, kids[i as int].id);
        }
        match doc.get(children[i]) {
            Some(child) => {
                assert(*child == kids[i as int]);
                operations.push(
                    Operation::Reparent {
                        id: child.id,
                        old_parent: child.parent,
                        old_index: child.index,
                        new_parent: Some(content_id),
                        new_index: child.index,
                    },
                );
            },
            None => {
                return Err(LayerError::MissingLayer);
            },
        }
        proof {
            assert forall|k: int| 0 <= k < i + 1 implies operations@[2 + k] == (
            Operation::Reparent {
                id: (#[trigger] kids[k]).id,
                old_parent: kids[k].parent,
                old_index: kids[k].index,
                new_parent: Some(content_id),
                new_index: kids[k].index,
            }) by {
                if k < i {
                    assert(operations@[2 + k] == before[2 + k]);
                }
            }
        }
        i = i + 1;
    }
    let ghost lead = operations@;
    let ghost n = 2 + kids.len();
    let mut s: usize = 0;
    assert(strokes@.take(0) =~= Seq::<Stroke>::empty());
    while s < strokes.len()
        invariant
            s <= strokes@.len(),
            strokes@ == crate::layer_context_ops::shown_strokes(*node.data),
            strokes@.len() <= facts.stroke_paths@.len(),
            strokes@.len() < facts.blanks@.len(),
            node.id == id,
            find_is(*doc, id, *node),
            strokes@.len() > 0,
            *node.data is Vector || *node.data is Group || *node.data is Boolean,
            *node.data is Group ==> facts.local_size is Some,
            !(*node.data is Group) ==> facts.outline_error is None,
            lead.len() == n,
            operations@.len() == n + inked(strokes@.take(s as int)).len(),
            operations@.take(n as int) == lead,
            index == key_behind(first, inked(strokes@.take(s as int)).len()),
            failed_path(*facts, strokes@, s as int) is None,
            forall|k: int|
                0 <= k < inked(strokes@.take(s as int)).len() ==> outlines_stroke(
                    operations@[n + k],
                    *facts,
                    strokes@,
                    #[trigger] inked(strokes@.take(s as int))[k],
                    id,
                    key_behind(first, (k + 1) as nat),
                ),
        decreases strokes@.len() - s,
    {
        let stroke = &strokes[s];
        let ghost before = operations@;
        let ghost ink = inked(strokes@.take(s as int));
        proof {
            assert(strokes@.take(s + 1).drop_last() =~= strokes@.take(s as int));
            assert(strokes@.take(s + 1).last() == *stroke);
        }
        if has_ink(stroke) {
            match &facts.stroke_paths[s] {
                Err(error) => {
                    proof {
                        lemma_failed_path_stays(*facts, strokes@, s + 1, strokes@.len() as int);
                    }
                    return Err(error.copy());
                },
                Ok(path) => {
                    index = IndexKey::after(index);
                    let vector = VectorNode::outlined(
                        path.copy(),
                        FillList::one(stroke.paint.copy()),
                        Arc::new(Vec::new()),
                    );
                    operations.push(
                        created(
                            &facts.blanks[s + 1],
                            "Outline",
                            id,
                            index,
                            NodeData::Vector(vector),
                        ),
                    );
                    proof {
                        let next = inked(strokes@.take(s + 1));
                        assert(next == ink.push(s as int));
                        assert(operations@.take(n as int) =~= lead);
                        assert(index == key_behind(first, (ink.len() + 1) as nat));
                        assert forall|k: int| 0 <= k < next.len() implies outlines_stroke(
                            operations@[n + k],
                            *facts,
                            strokes@,
                            #[trigger] next[k],
                            id,
                            key_behind(first, (k + 1) as nat),
                        ) by {
                            if k < ink.len() {
                                assert(next[k] == ink[k]);
                                assert(operations@[n + k] == before[n + k]);
                            }
                        }
                    }
                },
            }
        }
        s = s + 1;
    }
    proof {
        assert(strokes@.take(strokes@.len() as int) =~= strokes@);
        assert(operations@[0] == lead[0]) by {
            assert(operations@.take(n as int)[0] == lead[0]);
        }
        assert(operations@[1] == lead[1]) by {
            assert(operations@.take(n as int)[1] == lead[1]);
        }
        assert forall|k: int| 0 <= k < kids.len() implies operations@[2 + k] == (
        Operation::Reparent {
            id: (#[trigger] kids[k]).id,
            old_parent: kids[k].parent,
            old_index: kids[k].index,
            new_parent: Some(facts.blanks@[0].id),
            new_index: kids[k].index,
        }) by {
            assert(operations@.take(n as int)[2 + k] == lead[2 + k]);
        }
    }
    Ok(operations)
}

pub open spec fn is_instance(node: CanvasNode) -> bool {
    *node.data is Instance
}

pub open spec fn is_text(node: CanvasNode) -> bool {
    *node.data is Text
}

pub open spec fn is_group(node: CanvasNode) -> bool {
    *node.data is Group
}

pub open spec fn find_is(doc: Doc, id: NodeId, node: CanvasNode) -> bool {
    crate::scene::find(doc.nodes@, id) == Some(node)
}

proof fn lemma_failed_path_stays(facts: OutlineFacts, strokes: Seq<Stroke>, m: int, n: int)
    requires
        0 <= m <= n,
        failed_path(facts, strokes, m) is Some,
    ensures
        failed_path(facts, strokes, n) == failed_path(facts, strokes, m),
    decreases n - m,
{
    if m < n {
        lemma_failed_path_stays(facts, strokes, m, n - 1);
    }
}

} // verus!
