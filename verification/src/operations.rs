//! Document operations: every one records what it replaces, so that it can be
//! taken back.

use std::sync::Arc;

use serde_json::Value;
use vstd::prelude::*;

use crate::document::{
    AnimationTrack, Blur, CanvasNode, ComponentDef, ComponentSet, Doc, IndexKey, LayoutChild,
    MaskType, NodeData, NodeFlags, Shadow, Transform,
};
use crate::ids::{ClipId, ComponentId, NodeId, TrackId};
use crate::meta::copy_meta;
use crate::paint::{share, BlendMode};
use crate::scalar::Scalar;

verus! {

#[allow(inconsistent_fields)]
#[derive(Debug, PartialEq)]
pub enum Operation {
    SetMask { id: NodeId, old: bool, new: bool },
    SetMaskType { id: NodeId, old: MaskType, new: MaskType },
    SetFlags { id: NodeId, old: NodeFlags, new: NodeFlags },
    SetTransform { id: NodeId, old: Transform, new: Transform },
    SetOpacity { id: NodeId, old: Scalar, new: Scalar },
    SetBlendMode { id: NodeId, old: BlendMode, new: BlendMode },
    SetEffects { id: NodeId, old: Arc<Vec<Shadow>>, new: Arc<Vec<Shadow>> },
    SetBlurs { id: NodeId, old: Arc<Vec<Blur>>, new: Arc<Vec<Blur>> },
    SetLayoutChild { id: NodeId, old: Option<LayoutChild>, new: Option<LayoutChild> },
    SetMeta { id: NodeId, old: Value, new: Value },
    SetIndex { id: NodeId, old: IndexKey, new: IndexKey },
    Reparent {
        id: NodeId,
        old_parent: Option<NodeId>,
        old_index: IndexKey,
        new_parent: Option<NodeId>,
        new_index: IndexKey,
    },
    ReplaceData { id: NodeId, old: Arc<NodeData>, new: Arc<NodeData> },
    CreateNode { node: Arc<CanvasNode> },
    DeleteNode { node: Arc<CanvasNode> },
    DeleteSubtree { snapshot: Arc<Vec<CanvasNode>> },
    RestoreSubtree { snapshot: Arc<Vec<CanvasNode>> },
    SetComponentSet { id: ComponentId, old: Arc<ComponentSet>, new: Arc<ComponentSet> },
    DeleteComponentSet { id: ComponentId, set: Arc<ComponentSet> },
    InsertComponentSet { id: ComponentId, set: Arc<ComponentSet> },
    DeleteComponent { id: ComponentId, def: Arc<ComponentDef> },
    InsertComponent { id: ComponentId, def: Arc<ComponentDef> },
    SetAnimationTrack {
        clip: ClipId,
        track: TrackId,
        old: Option<AnimationTrack>,
        new: Option<AnimationTrack>,
    },
}

impl Operation {
    pub fn copy(&self) -> (r: Self)
        ensures
            r == *self,
    {
        match self {
            Operation::SetMask { id, old, new } => Operation::SetMask {
                id: *id,
                old: *old,
                new: *new,
            },
            Operation::SetMaskType { id, old, new } => Operation::SetMaskType {
                id: *id,
                old: *old,
                new: *new,
            },
            Operation::SetFlags { id, old, new } => Operation::SetFlags {
                id: *id,
                old: *old,
                new: *new,
            },
            Operation::SetTransform { id, old, new } => Operation::SetTransform {
                id: *id,
                old: *old,
                new: *new,
            },
            Operation::SetOpacity { id, old, new } => Operation::SetOpacity {
                id: *id,
                old: *old,
                new: *new,
            },
            Operation::SetBlendMode { id, old, new } => Operation::SetBlendMode {
                id: *id,
                old: *old,
                new: *new,
            },
            Operation::SetEffects { id, old, new } => Operation::SetEffects {
                id: *id,
                old: share(old),
                new: share(new),
            },
            Operation::SetBlurs { id, old, new } => Operation::SetBlurs {
                id: *id,
                old: share(old),
                new: share(new),
            },
            Operation::SetLayoutChild { id, old, new } => Operation::SetLayoutChild {
                id: *id,
                old: *old,
                new: *new,
            },
            Operation::SetMeta { id, old, new } => Operation::SetMeta {
                id: *id,
                old: copy_meta(old),
                new: copy_meta(new),
            },
            Operation::SetIndex { id, old, new } => Operation::SetIndex {
                id: *id,
                old: *old,
                new: *new,
            },
            Operation::Reparent { id, old_parent, old_index, new_parent, new_index } =>
                Operation::Reparent {
                    id: *id,
                    old_parent: *old_parent,
                    old_index: *old_index,
                    new_parent: *new_parent,
                    new_index: *new_index,
                },
            Operation::ReplaceData { id, old, new } => Operation::ReplaceData {
                id: *id,
                old: share(old),
                new: share(new),
            },
            Operation::CreateNode { node } => Operation::CreateNode { node: share(node) },
            Operation::DeleteNode { node } => Operation::DeleteNode { node: share(node) },
            Operation::DeleteSubtree { snapshot } => Operation::DeleteSubtree {
                snapshot: share(snapshot),
            },
            Operation::RestoreSubtree { snapshot } => Operation::RestoreSubtree {
                snapshot: share(snapshot),
            },
            Operation::SetComponentSet { id, old, new } => Operation::SetComponentSet {
                id: *id,
                old: share(old),
                new: share(new),
            },
            Operation::DeleteComponentSet { id, set } => Operation::DeleteComponentSet {
                id: *id,
                set: share(set),
            },
            Operation::InsertComponentSet { id, set } => Operation::InsertComponentSet {
                id: *id,
                set: share(set),
            },
            Operation::DeleteComponent { id, def } => Operation::DeleteComponent {
                id: *id,
                def: share(def),
            },
            Operation::InsertComponent { id, def } => Operation::InsertComponent {
                id: *id,
                def: share(def),
            },
            Operation::SetAnimationTrack { clip, track, old, new } =>
                Operation::SetAnimationTrack { clip: *clip, track: *track, old: *old, new: *new },
        }
    }
}

/// Copies every operation of a list behind another list.
pub fn extend(operations: &mut Vec<Operation>, more: &Vec<Operation>)
    ensures
        final(operations)@ == old(operations)@ + more@,
{
    let mut i: usize = 0;
    assert(more@.take(0) =~= Seq::<Operation>::empty());
    assert(operations@ + Seq::<Operation>::empty() =~= operations@);
    while i < more.len()
        invariant
            i <= more@.len(),
            operations@ == old(operations)@ + more@.take(i as int),
        decreases more@.len() - i,
    {
        operations.push(more[i].copy());
        assert(more@.take(i + 1) =~= more@.take(i as int).push(more@[i as int]));
        assert(old(operations)@ + more@.take(i + 1) =~= (old(operations)@ + more@.take(
            i as int,
        )).push(more@[i as int]));
        i = i + 1;
    }
    assert(more@.take(more@.len() as int) =~= more@);
}

// ---------------------------------------------------------------------------
// What operations do
// ---------------------------------------------------------------------------

/// What a document holds, by identity.
#[verifier::ext_equal]
pub struct Content {
    pub nodes: Map<NodeId, CanvasNode>,
    pub components: Map<ComponentId, ComponentDef>,
    pub sets: Map<ComponentId, ComponentSet>,
    pub tracks: Map<(ClipId, TrackId), AnimationTrack>,
}

pub open spec fn node_key() -> spec_fn(CanvasNode) -> NodeId {
    |node: CanvasNode| node.id
}

pub open spec fn component_key() -> spec_fn(ComponentDef) -> ComponentId {
    |def: ComponentDef| def.id
}

pub open spec fn set_key() -> spec_fn(ComponentSet) -> ComponentId {
    |set: ComponentSet| set.id
}

pub open spec fn track_key() -> spec_fn(AnimationTrack) -> (ClipId, TrackId) {
    |track: AnimationTrack| (track.clip, track.id)
}

impl Doc {
    pub open spec fn content(self) -> Content {
        Content {
            nodes: crate::keyed::keyed(self.nodes@, node_key()),
            components: crate::keyed::keyed(self.components@, component_key()),
            sets: crate::keyed::keyed(self.sets@, set_key()),
            tracks: crate::keyed::keyed(self.tracks@, track_key()),
        }
    }

    /// Nothing occurs twice.
    pub open spec fn well_formed(self) -> bool {
        &&& crate::keyed::distinct(self.nodes@, node_key())
        &&& crate::keyed::distinct(self.components@, component_key())
        &&& crate::keyed::distinct(self.sets@, set_key())
        &&& crate::keyed::distinct(self.tracks@, track_key())
    }
}

/// The content with one layer put in.
pub open spec fn with_node(content: Content, node: CanvasNode) -> Content {
    Content { nodes: content.nodes.insert(node.id, node), ..content }
}

/// What becomes of the layer that an operation changes.
pub open spec fn changed_node(node: CanvasNode, operation: Operation) -> CanvasNode {
    match operation {
        Operation::SetMask { new, .. } => CanvasNode { is_mask: new, ..node },
        Operation::SetMaskType { new, .. } => CanvasNode { mask_type: new, ..node },
        Operation::SetFlags { new, .. } => CanvasNode { flags: new, ..node },
        Operation::SetTransform { new, .. } => CanvasNode { transform: new, ..node },
        Operation::SetOpacity { new, .. } => CanvasNode { opacity: new, ..node },
        Operation::SetBlendMode { new, .. } => CanvasNode { blend_mode: new, ..node },
        Operation::SetEffects { new, .. } => CanvasNode { effects: new, ..node },
        Operation::SetBlurs { new, .. } => CanvasNode { blurs: new, ..node },
        Operation::SetLayoutChild { new, .. } => CanvasNode { layout_child: new, ..node },
        Operation::SetMeta { new, .. } => CanvasNode { meta: new, ..node },
        Operation::SetIndex { new, .. } => CanvasNode { index: new, ..node },
        Operation::Reparent { new_parent, new_index, .. } => CanvasNode {
            parent: new_parent,
            index: new_index,
            ..node
        },
        Operation::ReplaceData { new, .. } => CanvasNode { data: new, ..node },
        _ => node,
    }
}

/// The layer that an operation changes, where it changes one.
pub open spec fn changes(operation: Operation) -> Option<NodeId> {
    match operation {
        Operation::SetMask { id, .. } => Some(id),
        Operation::SetMaskType { id, .. } => Some(id),
        Operation::SetFlags { id, .. } => Some(id),
        Operation::SetTransform { id, .. } => Some(id),
        Operation::SetOpacity { id, .. } => Some(id),
        Operation::SetBlendMode { id, .. } => Some(id),
        Operation::SetEffects { id, .. } => Some(id),
        Operation::SetBlurs { id, .. } => Some(id),
        Operation::SetLayoutChild { id, .. } => Some(id),
        Operation::SetMeta { id, .. } => Some(id),
        Operation::SetIndex { id, .. } => Some(id),
        Operation::Reparent { id, .. } => Some(id),
        Operation::ReplaceData { id, .. } => Some(id),
        _ => None,
    }
}

/// The operation can be carried out.
pub open spec fn applicable(content: Content, operation: Operation) -> bool {
    match changes(operation) {
        Some(id) => content.nodes.dom().contains(id),
        None => match operation {
            Operation::CreateNode { node } => !content.nodes.dom().contains(node.id),
            Operation::DeleteNode { node } => content.nodes.dom().contains(node.id),
            Operation::DeleteSubtree { snapshot } => crate::keyed::distinct(snapshot@, node_key()) && forall|
                i: int,
            |
                0 <= i < snapshot@.len() ==> content.nodes.dom().contains(
                    (#[trigger] snapshot@[i]).id,
                ),
            Operation::RestoreSubtree { snapshot } => crate::keyed::distinct(snapshot@, node_key()) && forall|
                i: int,
            |
                0 <= i < snapshot@.len() ==> !content.nodes.dom().contains(
                    (#[trigger] snapshot@[i]).id,
                ),
            Operation::SetComponentSet { id, new, .. } => content.sets.dom().contains(id) && new.id
                == id,
            Operation::DeleteComponentSet { id, .. } => content.sets.dom().contains(id),
            Operation::InsertComponentSet { id, set } => !content.sets.dom().contains(id) && set.id
                == id,
            Operation::DeleteComponent { id, .. } => content.components.dom().contains(id),
            Operation::InsertComponent { id, def } => !content.components.dom().contains(id)
                && def.id == id,
            Operation::SetAnimationTrack { clip, track, new, .. } => match new {
                Some(new) => new.clip == clip && new.id == track,
                None => true,
            },
            _ => false,
        },
    }
}

/// The content once the operation is carried out.
pub open spec fn applied(content: Content, operation: Operation) -> Content {
    match changes(operation) {
        Some(id) => with_node(content, changed_node(content.nodes[id], operation)),
        None => match operation {
            Operation::CreateNode { node } => with_node(content, *node),
            Operation::DeleteNode { node } => Content {
                nodes: content.nodes.remove(node.id),
                ..content
            },
            Operation::DeleteSubtree { snapshot } => Content {
                nodes: without_all(content.nodes, snapshot@),
                ..content
            },
            Operation::RestoreSubtree { snapshot } => Content {
                nodes: with_all(content.nodes, snapshot@),
                ..content
            },
            Operation::SetComponentSet { id, new, .. } => Content {
                sets: content.sets.insert(id, *new),
                ..content
            },
            Operation::DeleteComponentSet { id, .. } => Content {
                sets: content.sets.remove(id),
                ..content
            },
            Operation::InsertComponentSet { id, set } => Content {
                sets: content.sets.insert(id, *set),
                ..content
            },
            Operation::DeleteComponent { id, .. } => Content {
                components: content.components.remove(id),
                ..content
            },
            Operation::InsertComponent { id, def } => Content {
                components: content.components.insert(id, *def),
                ..content
            },
            Operation::SetAnimationTrack { clip, track, new, .. } => match new {
                Some(new) => Content { tracks: content.tracks.insert((clip, track), new), ..content },
                None => Content { tracks: content.tracks.remove((clip, track)), ..content },
            },
            _ => content,
        },
    }
}

pub open spec fn without_all(
    nodes: Map<NodeId, CanvasNode>,
    snapshot: Seq<CanvasNode>,
) -> Map<NodeId, CanvasNode>
    decreases snapshot.len(),
{
    if snapshot.len() == 0 {
        nodes
    } else {
        without_all(nodes, snapshot.drop_last()).remove(snapshot.last().id)
    }
}

pub open spec fn with_all(
    nodes: Map<NodeId, CanvasNode>,
    snapshot: Seq<CanvasNode>,
) -> Map<NodeId, CanvasNode>
    decreases snapshot.len(),
{
    if snapshot.len() == 0 {
        nodes
    } else {
        with_all(nodes, snapshot.drop_last()).insert(snapshot.last().id, snapshot.last())
    }
}

/// What the operation says it replaces is what the document holds.
pub open spec fn recorded(content: Content, operation: Operation) -> bool {
    match operation {
        Operation::SetMask { id, old, .. } => content.nodes[id].is_mask == old,
        Operation::SetMaskType { id, old, .. } => content.nodes[id].mask_type == old,
        Operation::SetFlags { id, old, .. } => content.nodes[id].flags == old,
        Operation::SetTransform { id, old, .. } => content.nodes[id].transform == old,
        Operation::SetOpacity { id, old, .. } => content.nodes[id].opacity == old,
        Operation::SetBlendMode { id, old, .. } => content.nodes[id].blend_mode == old,
        Operation::SetEffects { id, old, .. } => content.nodes[id].effects == old,
        Operation::SetBlurs { id, old, .. } => content.nodes[id].blurs == old,
        Operation::SetLayoutChild { id, old, .. } => content.nodes[id].layout_child == old,
        Operation::SetMeta { id, old, .. } => content.nodes[id].meta == old,
        Operation::SetIndex { id, old, .. } => content.nodes[id].index == old,
        Operation::Reparent { id, old_parent, old_index, .. } => content.nodes[id].parent
            == old_parent && content.nodes[id].index == old_index,
        Operation::ReplaceData { id, old, .. } => content.nodes[id].data == old,
        Operation::CreateNode { .. } => true,
        Operation::DeleteNode { node } => content.nodes[node.id] == *node,
        Operation::DeleteSubtree { snapshot } => forall|i: int|
            0 <= i < snapshot@.len() ==> content.nodes[(#[trigger] snapshot@[i]).id]
                == snapshot@[i],
        Operation::RestoreSubtree { .. } => true,
        Operation::SetComponentSet { id, old, .. } => content.sets[id] == *old,
        Operation::DeleteComponentSet { id, set } => content.sets[id] == *set,
        Operation::InsertComponentSet { .. } => true,
        Operation::DeleteComponent { id, def } => content.components[id] == *def,
        Operation::InsertComponent { .. } => true,
        Operation::SetAnimationTrack { clip, track, old, .. } => match old {
            Some(old) => content.tracks.dom().contains((clip, track)) && content.tracks[(
                clip,
                track,
            )] == old,
            None => !content.tracks.dom().contains((clip, track)),
        },
    }
}

/// Every item of a document is filed under its own identity.
pub open spec fn filed(content: Content) -> bool {
    &&& forall|id: NodeId| #[trigger]
        content.nodes.dom().contains(id) ==> content.nodes[id].id == id
    &&& forall|id: ComponentId| #[trigger]
        content.sets.dom().contains(id) ==> content.sets[id].id == id
    &&& forall|id: ComponentId| #[trigger]
        content.components.dom().contains(id) ==> content.components[id].id == id
    &&& forall|key: (ClipId, TrackId)| #[trigger]
        content.tracks.dom().contains(key) ==> (content.tracks[key].clip, content.tracks[key].id)
            == key
}

/// The operation that takes another back.
pub open spec fn inverse(operation: Operation) -> Operation {
    match operation {
        Operation::SetMask { id, old, new } => Operation::SetMask { id, old: new, new: old },
        Operation::SetMaskType { id, old, new } => Operation::SetMaskType { id, old: new, new: old },
        Operation::SetFlags { id, old, new } => Operation::SetFlags { id, old: new, new: old },
        Operation::SetTransform { id, old, new } => Operation::SetTransform {
            id,
            old: new,
            new: old,
        },
        Operation::SetOpacity { id, old, new } => Operation::SetOpacity { id, old: new, new: old },
        Operation::SetBlendMode { id, old, new } => Operation::SetBlendMode {
            id,
            old: new,
            new: old,
        },
        Operation::SetEffects { id, old, new } => Operation::SetEffects { id, old: new, new: old },
        Operation::SetBlurs { id, old, new } => Operation::SetBlurs { id, old: new, new: old },
        Operation::SetLayoutChild { id, old, new } => Operation::SetLayoutChild {
            id,
            old: new,
            new: old,
        },
        Operation::SetMeta { id, old, new } => Operation::SetMeta { id, old: new, new: old },
        Operation::SetIndex { id, old, new } => Operation::SetIndex { id, old: new, new: old },
        Operation::Reparent { id, old_parent, old_index, new_parent, new_index } =>
            Operation::Reparent {
                id,
                old_parent: new_parent,
                old_index: new_index,
                new_parent: old_parent,
                new_index: old_index,
            },
        Operation::ReplaceData { id, old, new } => Operation::ReplaceData { id, old: new, new: old },
        Operation::CreateNode { node } => Operation::DeleteNode { node },
        Operation::DeleteNode { node } => Operation::CreateNode { node },
        Operation::DeleteSubtree { snapshot } => Operation::RestoreSubtree { snapshot },
        Operation::RestoreSubtree { snapshot } => Operation::DeleteSubtree { snapshot },
        Operation::SetComponentSet { id, old, new } => Operation::SetComponentSet {
            id,
            old: new,
            new: old,
        },
        Operation::DeleteComponentSet { id, set } => Operation::InsertComponentSet { id, set },
        Operation::InsertComponentSet { id, set } => Operation::DeleteComponentSet { id, set },
        Operation::DeleteComponent { id, def } => Operation::InsertComponent { id, def },
        Operation::InsertComponent { id, def } => Operation::DeleteComponent { id, def },
        Operation::SetAnimationTrack { clip, track, old, new } => Operation::SetAnimationTrack {
            clip,
            track,
            old: new,
            new: old,
        },
    }
}

/// The content once a list of operations is carried out in order.
pub open spec fn all_applied(content: Content, operations: Seq<Operation>) -> Content
    decreases operations.len(),
{
    if operations.len() == 0 {
        content
    } else {
        applied(all_applied(content, operations.drop_last()), operations.last())
    }
}

/// Every operation of a list can be carried out in its turn.
pub open spec fn carried(content: Content, operations: Seq<Operation>) -> bool
    decreases operations.len(),
{
    operations.len() == 0 || {
        &&& carried(content, operations.drop_last())
        &&& applicable(all_applied(content, operations.drop_last()), operations.last())
    }
}

/// Every operation of a list can be carried out in its turn and records what it
/// replaces.
pub open spec fn reversible(content: Content, operations: Seq<Operation>) -> bool
    decreases operations.len(),
{
    operations.len() == 0 || {
        let before = all_applied(content, operations.drop_last());
        &&& reversible(content, operations.drop_last())
        &&& applicable(before, operations.last())
        &&& recorded(before, operations.last())
    }
}

/// The content once a list of operations is taken back, the last first.
pub open spec fn all_undone(content: Content, operations: Seq<Operation>) -> Content
    decreases operations.len(),
{
    if operations.len() == 0 {
        content
    } else {
        all_undone(applied(content, inverse(operations.last())), operations.drop_last())
    }
}

// ---------------------------------------------------------------------------
// Laws
// ---------------------------------------------------------------------------

/// What can be taken back could be carried out.
pub proof fn lemma_reversible_carried(content: Content, operations: Seq<Operation>)
    requires
        reversible(content, operations),
    ensures
        carried(content, operations),
    decreases operations.len(),
{
    if operations.len() > 0 {
        lemma_reversible_carried(content, operations.drop_last());
    }
}

proof fn lemma_without_then_with(nodes: Map<NodeId, CanvasNode>, snapshot: Seq<CanvasNode>)
    requires
        crate::keyed::distinct(snapshot, node_key()),
        forall|i: int|
            0 <= i < snapshot.len() ==> nodes.dom().contains((#[trigger] snapshot[i]).id)
                && nodes[snapshot[i].id] == snapshot[i],
    ensures
        with_all(without_all(nodes, snapshot), snapshot) == nodes,
    decreases snapshot.len(),
{
    if snapshot.len() > 0 {
        lemma_without_members(nodes, snapshot);
        lemma_with_members(without_all(nodes, snapshot), snapshot);
        let back = with_all(without_all(nodes, snapshot), snapshot);
        assert forall|id: NodeId| #[trigger] back.dom().contains(id) == nodes.dom().contains(id) by {
            if in_list(snapshot, id) {
                let i = choose|i: int| 0 <= i < snapshot.len() && (#[trigger] snapshot[i]).id == id;
                assert(nodes.dom().contains(snapshot[i].id));
            }
        }
        assert forall|id: NodeId| #[trigger] nodes.dom().contains(id) implies back[id]
            == nodes[id] by {
            if in_list(snapshot, id) {
                let i = choose|i: int| 0 <= i < snapshot.len() && (#[trigger] snapshot[i]).id == id;
                assert(back[snapshot[i].id] == snapshot[i]);
                assert(nodes[snapshot[i].id] == snapshot[i]);
            } else {
                assert(without_all(nodes, snapshot).dom().contains(id));
                assert(back.dom().contains(id));
            }
        }
        assert(back =~= nodes);
    }
}

pub open spec fn in_list(snapshot: Seq<CanvasNode>, id: NodeId) -> bool {
    exists|i: int| 0 <= i < snapshot.len() && (#[trigger] snapshot[i]).id == id
}

proof fn lemma_in_list_split(snapshot: Seq<CanvasNode>, id: NodeId)
    requires
        snapshot.len() > 0,
    ensures
        in_list(snapshot, id) <==> in_list(snapshot.drop_last(), id) || snapshot.last().id == id,
{
    let front = snapshot.drop_last();
    if in_list(front, id) {
        let i = choose|i: int| 0 <= i < front.len() && (#[trigger] front[i]).id == id;
        assert(snapshot[i].id == id);
    }
    if snapshot.last().id == id {
        assert(snapshot[snapshot.len() - 1].id == id);
    }
    if in_list(snapshot, id) {
        let i = choose|i: int| 0 <= i < snapshot.len() && (#[trigger] snapshot[i]).id == id;
        if i < front.len() {
            assert(front[i].id == id);
        }
    }
}

/// Deleting a subtree leaves the other layers as they are.
pub proof fn lemma_without_members(nodes: Map<NodeId, CanvasNode>, snapshot: Seq<CanvasNode>)
    ensures
        forall|id: NodeId| #[trigger]
            without_all(nodes, snapshot).dom().contains(id) <==> nodes.dom().contains(id)
                && !in_list(snapshot, id),
        forall|id: NodeId| #[trigger]
            without_all(nodes, snapshot).dom().contains(id) ==> without_all(nodes, snapshot)[id]
                == nodes[id],
    decreases snapshot.len(),
{
    if snapshot.len() > 0 {
        lemma_without_members(nodes, snapshot.drop_last());
        assert forall|id: NodeId| #[trigger]
            without_all(nodes, snapshot).dom().contains(id) <==> nodes.dom().contains(id)
                && !in_list(snapshot, id) by {
            lemma_in_list_split(snapshot, id);
            assert(without_all(nodes, snapshot.drop_last()).dom().contains(id) <==> nodes.dom().contains(id) && !in_list(snapshot.drop_last(), id));
        }
        assert forall|id: NodeId| #[trigger]
            without_all(nodes, snapshot).dom().contains(id) implies without_all(nodes, snapshot)[id]
            == nodes[id] by {
            assert(without_all(nodes, snapshot.drop_last()).dom().contains(id));
        }
    }
}

proof fn lemma_with_members(nodes: Map<NodeId, CanvasNode>, snapshot: Seq<CanvasNode>)
    requires
        crate::keyed::distinct(snapshot, node_key()),
    ensures
        forall|id: NodeId| #[trigger]
            with_all(nodes, snapshot).dom().contains(id) <==> nodes.dom().contains(id) || in_list(
                snapshot,
                id,
            ),
        forall|id: NodeId| #[trigger]
            with_all(nodes, snapshot).dom().contains(id) && !in_list(snapshot, id) ==> with_all(
                nodes,
                snapshot,
            )[id] == nodes[id],
        forall|i: int|
            0 <= i < snapshot.len() ==> with_all(nodes, snapshot)[(#[trigger] snapshot[i]).id]
                == snapshot[i],
    decreases snapshot.len(),
{
    if snapshot.len() > 0 {
        let front = snapshot.drop_last();
        assert forall|i: int, j: int| 0 <= i < j < front.len() implies node_key()(
            #[trigger] front[i],
        ) != node_key()(#[trigger] front[j]) by {
            assert(node_key()(snapshot[i]) != node_key()(snapshot[j]));
        }
        lemma_with_members(nodes, front);
        assert forall|id: NodeId| #[trigger]
            with_all(nodes, snapshot).dom().contains(id) <==> nodes.dom().contains(id) || in_list(
                snapshot,
                id,
            ) by {
            lemma_in_list_split(snapshot, id);
            assert(with_all(nodes, front).dom().contains(id) <==> nodes.dom().contains(id) || in_list(front, id));
        }
        assert forall|id: NodeId| #[trigger]
            with_all(nodes, snapshot).dom().contains(id) && !in_list(
                snapshot,
                id,
            ) implies with_all(nodes, snapshot)[id] == nodes[id] by {
            lemma_in_list_split(snapshot, id);
            assert(with_all(nodes, front).dom().contains(id));
        }
        assert forall|i: int| 0 <= i < snapshot.len() implies with_all(nodes, snapshot)[(
        #[trigger] snapshot[i]).id] == snapshot[i] by {
            if i < front.len() {
                assert(front[i] == snapshot[i]);
                assert(node_key()(snapshot[i]) != node_key()(snapshot[snapshot.len() - 1]));
                assert(with_all(nodes, front)[front[i].id] == front[i]);
            }
        }
    }
}

/// Carrying an operation out and then its inverse leaves the document as it
/// was.
pub proof fn lemma_operation_undone(content: Content, operation: Operation)
    requires
        filed(content),
        applicable(content, operation),
        recorded(content, operation),
    ensures
        applied(applied(content, operation), inverse(operation)) == content,
        applicable(applied(content, operation), inverse(operation)),
{
    let after = applied(content, operation);
    let back = applied(after, inverse(operation));
    match changes(operation) {
        Some(id) => {
            assert(content.nodes[id].id == id);
            let node = content.nodes[id];
            let changed = changed_node(node, operation);
            assert(after.nodes[id] == changed);
            assert(changed_node(changed, inverse(operation)) == node);
            assert(back.nodes =~= content.nodes);
            assert(back =~= content);
        },
        None => {
            match operation {
                Operation::DeleteSubtree { snapshot } => {
                    lemma_without_then_with(content.nodes, snapshot@);
                    lemma_without_members(content.nodes, snapshot@);
                    assert forall|i: int| 0 <= i < snapshot@.len() implies !after.nodes.dom().contains(
                        (#[trigger] snapshot@[i]).id,
                    ) by {
                        assert(in_list(snapshot@, snapshot@[i].id));
                    }
                    assert(back =~= content);
                },
                Operation::RestoreSubtree { snapshot } => {
                    lemma_with_members(content.nodes, snapshot@);
                    lemma_without_members(after.nodes, snapshot@);
                    assert forall|i: int| 0 <= i < snapshot@.len() implies after.nodes.dom().contains(
                        (#[trigger] snapshot@[i]).id,
                    ) by {
                        assert(in_list(snapshot@, snapshot@[i].id));
                    }
                    assert forall|id: NodeId| #[trigger]
                        back.nodes.dom().contains(id) == content.nodes.dom().contains(id) by {
                        if in_list(snapshot@, id) {
                            let i = choose|i: int|
                                0 <= i < snapshot@.len() && (#[trigger] snapshot@[i]).id == id;
                            assert(!content.nodes.dom().contains(snapshot@[i].id));
                        }
                    }
                    assert(back.nodes =~= content.nodes);
                    assert(back =~= content);
                },
                Operation::CreateNode { node } => {
                    assert(back.nodes =~= content.nodes);
                    assert(back =~= content);
                },
                Operation::DeleteNode { node } => {
                    assert(back.nodes =~= content.nodes);
                    assert(back =~= content);
                },
                Operation::SetComponentSet { id, old, new } => {
                    assert(back.sets =~= content.sets);
                    assert(back =~= content);
                },
                Operation::DeleteComponentSet { id, set } => {
                    assert(back.sets =~= content.sets);
                    assert(back =~= content);
                },
                Operation::InsertComponentSet { id, set } => {
                    assert(back.sets =~= content.sets);
                    assert(back =~= content);
                },
                Operation::DeleteComponent { id, def } => {
                    assert(back.components =~= content.components);
                    assert(back =~= content);
                },
                Operation::InsertComponent { id, def } => {
                    assert(back.components =~= content.components);
                    assert(back =~= content);
                },
                Operation::SetAnimationTrack { clip, track, old, new } => {
                    assert(back.tracks =~= content.tracks);
                    assert(back =~= content);
                },
                _ => {},
            }
        },
    }
}

/// Filing survives every operation that can be carried out.
pub proof fn lemma_applied_filed(content: Content, operation: Operation)
    requires
        filed(content),
        applicable(content, operation),
    ensures
        filed(applied(content, operation)),
{
    let after = applied(content, operation);
    match operation {
        Operation::DeleteSubtree { snapshot } => {
            lemma_without_members(content.nodes, snapshot@);
        },
        Operation::RestoreSubtree { snapshot } => {
            lemma_with_members(content.nodes, snapshot@);
            assert forall|id: NodeId| #[trigger]
                after.nodes.dom().contains(id) implies after.nodes[id].id == id by {
                if in_list(snapshot@, id) {
                    let i = choose|i: int|
                        0 <= i < snapshot@.len() && (#[trigger] snapshot@[i]).id == id;
                    assert(after.nodes[snapshot@[i].id] == snapshot@[i]);
                }
            }
        },
        _ => {},
    }
}

/// Filing survives every list that can be taken back.
pub proof fn lemma_all_applied_filed(content: Content, operations: Seq<Operation>)
    requires
        filed(content),
        reversible(content, operations),
    ensures
        filed(all_applied(content, operations)),
    decreases operations.len(),
{
    if operations.len() > 0 {
        lemma_all_applied_filed(content, operations.drop_last());
        lemma_applied_filed(
            all_applied(content, operations.drop_last()),
            operations.last(),
        );
    }
}

/// Carrying a reversible list of operations out and taking it back, the last
/// first, leaves the document as it was.
pub proof fn lemma_operations_undone(content: Content, operations: Seq<Operation>)
    requires
        filed(content),
        reversible(content, operations),
    ensures
        all_undone(all_applied(content, operations), operations) == content,
    decreases operations.len(),
{
    if operations.len() > 0 {
        let front = operations.drop_last();
        lemma_all_applied_filed(content, front);
        lemma_operation_undone(all_applied(content, front), operations.last());
        lemma_operations_undone(content, front);
    }
}

/// A document files everything under its own identity.
pub proof fn lemma_doc_filed(doc: Doc)
    requires
        doc.well_formed(),
    ensures
        filed(doc.content()),
{
    let content = doc.content();
    assert forall|id: NodeId| #[trigger] content.nodes.dom().contains(id) implies content.nodes[id].id
        == id by {
        crate::keyed::lemma_keyed_contains(doc.nodes@, node_key(), id);
        let i = choose|i: int|
            0 <= i < doc.nodes@.len() && node_key()(#[trigger] doc.nodes@[i]) == id;
        crate::keyed::lemma_keyed_at(doc.nodes@, node_key(), i);
    }
    assert forall|id: ComponentId| #[trigger] content.sets.dom().contains(id) implies content.sets[id].id
        == id by {
        crate::keyed::lemma_keyed_contains(doc.sets@, set_key(), id);
        let i = choose|i: int| 0 <= i < doc.sets@.len() && set_key()(#[trigger] doc.sets@[i]) == id;
        crate::keyed::lemma_keyed_at(doc.sets@, set_key(), i);
    }
    assert forall|id: ComponentId| #[trigger]
        content.components.dom().contains(id) implies content.components[id].id == id by {
        crate::keyed::lemma_keyed_contains(doc.components@, component_key(), id);
        let i = choose|i: int|
            0 <= i < doc.components@.len() && component_key()(#[trigger] doc.components@[i]) == id;
        crate::keyed::lemma_keyed_at(doc.components@, component_key(), i);
    }
    assert forall|key: (ClipId, TrackId)| #[trigger]
        content.tracks.dom().contains(key) implies (
    content.tracks[key].clip,
    content.tracks[key].id,
    ) == key by {
        crate::keyed::lemma_keyed_contains(doc.tracks@, track_key(), key);
        let i = choose|i: int|
            0 <= i < doc.tracks@.len() && track_key()(#[trigger] doc.tracks@[i]) == key;
        crate::keyed::lemma_keyed_at(doc.tracks@, track_key(), i);
    }
}

/// Looking a layer up gives what the document files under its id.
pub proof fn lemma_find_is_content(doc: Doc, id: NodeId)
    requires
        doc.well_formed(),
    ensures
        match crate::scene::find(doc.nodes@, id) {
            Some(node) => doc.content().nodes.dom().contains(id) && doc.content().nodes[id] == node
                && node.id == id,
            None => !doc.content().nodes.dom().contains(id),
        },
{
    crate::scene::lemma_find_has_id(doc.nodes@, id);
    crate::scene::lemma_find_none(doc.nodes@, id);
    crate::keyed::lemma_keyed_contains(doc.nodes@, node_key(), id);
    if let Some(node) = crate::scene::find(doc.nodes@, id) {
        let i = choose|i: int| 0 <= i < doc.nodes@.len() && doc.nodes@[i] == node;
        crate::keyed::lemma_keyed_at(doc.nodes@, node_key(), i);
    }
}

/// One more reversible operation keeps a list reversible.
pub proof fn lemma_reversible_push(
    content: Content,
    operations: Seq<Operation>,
    operation: Operation,
)
    requires
        reversible(content, operations),
        applicable(all_applied(content, operations), operation),
        recorded(all_applied(content, operations), operation),
    ensures
        reversible(content, operations.push(operation)),
        all_applied(content, operations.push(operation)) == applied(
            all_applied(content, operations),
            operation,
        ),
{
    assert(operations.push(operation).drop_last() =~= operations);
}

/// The end of a list that can be carried out can be carried out behind its
/// beginning.
pub proof fn lemma_carried_split(content: Content, a: Seq<Operation>, b: Seq<Operation>)
    requires
        carried(content, a + b),
    ensures
        carried(content, a),
        carried(all_applied(content, a), b),
        all_applied(content, a + b) == all_applied(all_applied(content, a), b),
    decreases b.len(),
{
    if b.len() == 0 {
        assert(a + b =~= a);
    } else {
        assert((a + b).drop_last() =~= a + b.drop_last());
        assert((a + b).last() == b.last());
        lemma_carried_split(content, a, b.drop_last());
    }
}

/// A list that is reversible behind another makes the whole reversible.
pub proof fn lemma_reversible_concat(content: Content, a: Seq<Operation>, b: Seq<Operation>)
    requires
        reversible(content, a),
        reversible(all_applied(content, a), b),
    ensures
        reversible(content, a + b),
        all_applied(content, a + b) == all_applied(all_applied(content, a), b),
    decreases b.len(),
{
    if b.len() == 0 {
        assert(a + b =~= a);
    } else {
        lemma_reversible_concat(content, a, b.drop_last());
        assert((a + b).drop_last() =~= a + b.drop_last());
        assert((a + b).last() == b.last());
    }
}

/// Which part of a layer an operation writes. A move writes the same part as a
/// change of place.
pub open spec fn written_part(operation: Operation) -> int {
    match operation {
        Operation::SetMask { .. } => 1,
        Operation::SetMaskType { .. } => 2,
        Operation::SetFlags { .. } => 3,
        Operation::SetTransform { .. } => 4,
        Operation::SetOpacity { .. } => 5,
        Operation::SetBlendMode { .. } => 6,
        Operation::SetEffects { .. } => 7,
        Operation::SetBlurs { .. } => 8,
        Operation::SetLayoutChild { .. } => 9,
        Operation::SetMeta { .. } => 10,
        Operation::SetIndex { .. } => 11,
        Operation::Reparent { .. } => 11,
        Operation::ReplaceData { .. } => 12,
        _ => 0,
    }
}

/// Both operations change layers, and not the same part of the same one.
pub open spec fn apart(a: Operation, b: Operation) -> bool {
    &&& changes(a) is Some
    &&& changes(b) is Some
    &&& changes(a) != changes(b) || written_part(a) != written_part(b)
}

/// No two operations of the list write the same part of one layer.
pub open spec fn independent(operations: Seq<Operation>) -> bool {
    forall|i: int, j: int|
        0 <= i < j < operations.len() ==> apart(#[trigger] operations[i], #[trigger] operations[j])
}

proof fn lemma_recorded_stable(content: Content, operation: Operation, other: Operation)
    requires
        filed(content),
        apart(other, operation),
        applicable(content, operation),
        applicable(content, other),
        recorded(content, operation),
    ensures
        applicable(applied(content, other), operation),
        recorded(applied(content, other), operation),
{
    let id = changes(other)->0;
    assert(content.nodes[id].id == id);
    assert(changed_node(content.nodes[id], other).id == id);
}

/// Operations that each record what the document holds, and that do not write
/// over one another, form a reversible list.
pub proof fn lemma_independent_reversible(content: Content, operations: Seq<Operation>)
    requires
        filed(content),
        independent(operations),
        forall|i: int|
            0 <= i < operations.len() ==> changes(#[trigger] operations[i]) is Some && applicable(
                content,
                operations[i],
            ) && recorded(content, operations[i]),
    ensures
        reversible(content, operations),
    decreases operations.len(),
{
    if operations.len() > 0 {
        let front = operations.drop_last();
        assert forall|i: int, j: int| 0 <= i < j < front.len() implies apart(
            #[trigger] front[i],
            #[trigger] front[j],
        ) by {
            assert(apart(operations[i], operations[j]));
        }
        assert forall|i: int| 0 <= i < front.len() implies changes(#[trigger] front[i]) is Some
            && applicable(content, front[i]) && recorded(content, front[i]) by {
            assert(changes(operations[i]) is Some);
        }
        lemma_independent_reversible(content, front);
        let last = operations.last();
        assert(changes(operations[operations.len() - 1]) is Some);
        assert forall|i: int| 0 <= i < front.len() implies apart(#[trigger] front[i], last) by {
            assert(apart(operations[i], operations[operations.len() - 1]));
        }
        lemma_recorded_behind(content, front, last);
    }
}

proof fn lemma_recorded_behind(content: Content, front: Seq<Operation>, last: Operation)
    requires
        filed(content),
        reversible(content, front),
        forall|i: int| 0 <= i < front.len() ==> apart(#[trigger] front[i], last),
        applicable(content, last),
        recorded(content, last),
    ensures
        applicable(all_applied(content, front), last),
        recorded(all_applied(content, front), last),
    decreases front.len(),
{
    if front.len() > 0 {
        let head = front.drop_last();
        assert forall|i: int| 0 <= i < head.len() implies apart(#[trigger] head[i], last) by {
            assert(apart(front[i], last));
        }
        lemma_recorded_behind(content, head, last);
        lemma_all_applied_filed(content, head);
        assert(apart(front[front.len() - 1], last));
        lemma_recorded_stable(all_applied(content, head), last, front.last());
    }
}

} // verus!
