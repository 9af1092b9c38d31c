//! Carrying operations out on a document.

use vstd::prelude::*;

use crate::document::{AnimationTrack, CanvasNode, ComponentDef, ComponentSet, Doc};
use crate::ids::{copy_ids, ClipId, ComponentId, NodeId, TrackId};
use crate::meta::copy_meta;
use crate::operations::Operation;
use crate::paint::share;

verus! {

/// The operation names something that the document does not hold, or adds
/// something that it already holds.
#[derive(Clone, Copy, Debug, PartialEq, Eq, Structural)]
pub struct NotApplicable;

impl Operation {
    /// The operation that takes this one back.
    pub fn inverse(&self) -> (r: Operation)
        ensures
            r == crate::operations::inverse(*self),
    {
        match self.copy() {
            Operation::SetMask { id, old, new } => Operation::SetMask { id, old: new, new: old },
            Operation::SetMaskType { id, old, new } => Operation::SetMaskType {
                id,
                old: new,
                new: old,
            },
            Operation::SetFlags { id, old, new } => Operation::SetFlags { id, old: new, new: old },
            Operation::SetTransform { id, old, new } => Operation::SetTransform {
                id,
                old: new,
                new: old,
            },
            Operation::SetOpacity { id, old, new } => Operation::SetOpacity {
                id,
                old: new,
                new: old,
            },
            Operation::SetBlendMode { id, old, new } => Operation::SetBlendMode {
                id,
                old: new,
                new: old,
            },
            Operation::SetEffects { id, old, new } => Operation::SetEffects {
                id,
                old: new,
                new: old,
            },
            Operation::SetBlurs { id, old, new } => Operation::SetBlurs { id, old: new, new: old },
            Operation::SetLayoutChild { id, old, new } => Operation::SetLayoutChild {
                id,
                old: new,
                new: old,
            },
            Operation::SetMeta { id, old, new } => Operation::SetMeta { id, old: new, new: old },
            Operation::SetIndex { id, old, new } => Operation::SetIndex { id, old: new, new: old },
            Operation::Reparent { id, old_parent, old_index, new_parent, new_index } =>
                Operation::Reparent {
                    id,
                    old_parent: new_parent,
                    old_index: new_index,
                    new_parent: old_parent,
                    new_index: old_index,
                },
            Operation::ReplaceData { id, old, new } => Operation::ReplaceData {
                id,
                old: new,
                new: old,
            },
            Operation::CreateNode { node } => Operation::DeleteNode { node },
            Operation::DeleteNode { node } => Operation::CreateNode { node },
            Operation::DeleteSubtree { snapshot } => Operation::RestoreSubtree { snapshot },
            Operation::RestoreSubtree { snapshot } => Operation::DeleteSubtree { snapshot },
            Operation::SetComponentSet { id, old, new } => Operation::SetComponentSet {
                id,
                old: new,
                new: old,
            },
            Operation::DeleteComponentSet { id, set } => Operation::InsertComponentSet { id, set },
            Operation::InsertComponentSet { id, set } => Operation::DeleteComponentSet { id, set },
            Operation::DeleteComponent { id, def } => Operation::InsertComponent { id, def },
            Operation::InsertComponent { id, def } => Operation::DeleteComponent { id, def },
            Operation::SetAnimationTrack { clip, track, old, new } =>
                Operation::SetAnimationTrack { clip, track, old: new, new: old },
        }
    }

    /// The layer that the operation changes, where it changes one.
    pub fn changed_layer(&self) -> (r: Option<NodeId>)
        ensures
            r == crate::operations::changes(*self),
    {
        match self {
            Operation::SetMask { id, .. } => Some(*id),
            Operation::SetMaskType { id, .. } => Some(*id),
            Operation::SetFlags { id, .. } => Some(*id),
            Operation::SetTransform { id, .. } => Some(*id),
            Operation::SetOpacity { id, .. } => Some(*id),
            Operation::SetBlendMode { id, .. } => Some(*id),
            Operation::SetEffects { id, .. } => Some(*id),
            Operation::SetBlurs { id, .. } => Some(*id),
            Operation::SetLayoutChild { id, .. } => Some(*id),
            Operation::SetMeta { id, .. } => Some(*id),
            Operation::SetIndex { id, .. } => Some(*id),
            Operation::Reparent { id, .. } => Some(*id),
            Operation::ReplaceData { id, .. } => Some(*id),
            _ => None,
        }
    }
}

fn changed_copy(node: &CanvasNode, operation: &Operation) -> (r: CanvasNode)
    ensures
        r == crate::operations::changed_node(*node, *operation),
{
    let node = node.copy();
    match operation {
        Operation::SetMask { new, .. } => CanvasNode { is_mask: *new, ..node },
        Operation::SetMaskType { new, .. } => CanvasNode { mask_type: *new, ..node },
        Operation::SetFlags { new, .. } => CanvasNode { flags: *new, ..node },
        Operation::SetTransform { new, .. } => CanvasNode { transform: *new, ..node },
        Operation::SetOpacity { new, .. } => CanvasNode { opacity: *new, ..node },
        Operation::SetBlendMode { new, .. } => CanvasNode { blend_mode: *new, ..node },
        Operation::SetEffects { new, .. } => CanvasNode { effects: share(new), ..node },
        Operation::SetBlurs { new, .. } => CanvasNode { blurs: share(new), ..node },
        Operation::SetLayoutChild { new, .. } => CanvasNode { layout_child: *new, ..node },
        Operation::SetMeta { new, .. } => CanvasNode { meta: copy_meta(new), ..node },
        Operation::SetIndex { new, .. } => CanvasNode { index: *new, ..node },
        Operation::Reparent { new_parent, new_index, .. } => CanvasNode {
            parent: *new_parent,
            index: *new_index,
            ..node
        },
        Operation::ReplaceData { new, .. } => CanvasNode { data: share(new), ..node },
        _ => node,
    }
}

/// Copies of layers, in order.
pub fn copy_nodes(nodes: &Vec<CanvasNode>) -> (copy: Vec<CanvasNode>)
    ensures
        copy@ == nodes@,
{
    let mut copy: Vec<CanvasNode> = Vec::new();
    let mut i: usize = 0;
    while i < nodes.len()
        invariant
            i <= nodes@.len(),
            copy@ == nodes@.take(i as int),
        decreases nodes@.len() - i,
    {
        copy.push(nodes[i].copy());
        assert(nodes@.take(i + 1) =~= nodes@.take(i as int).push(nodes@[i as int]));
        i = i + 1;
    }
    assert(nodes@.take(nodes@.len() as int) =~= nodes@);
    copy
}

/// Whether no two layers of a list have one id.
fn layers_distinct(nodes: &Vec<CanvasNode>) -> (r: bool)
    ensures
        r == crate::keyed::distinct(nodes@, crate::operations::node_key()),
{
    let ghost key = crate::operations::node_key();
    let mut j: usize = 0;
    while j < nodes.len()
        invariant
            j <= nodes@.len(),
            key == crate::operations::node_key(),
            forall|a: int, b: int|
                0 <= a < b < j ==> key(#[trigger] nodes@[a]) != key(#[trigger] nodes@[b]),
        decreases nodes@.len() - j,
    {
        let mut i: usize = 0;
        while i < j
            invariant
                i <= j < nodes@.len(),
                key == crate::operations::node_key(),
                forall|a: int|
                    0 <= a < i ==> key(#[trigger] nodes@[a]) != key(nodes@[j as int]),
            decreases j - i,
        {
            if nodes[i].id == nodes[j].id {
                assert(key(nodes@[i as int]) == key(nodes@[j as int]));
                return false;
            }
            i = i + 1;
        }
        j = j + 1;
    }
    true
}

impl Doc {
    /// Both documents hold the same, in the same order.
    pub open spec fn same_as(self, other: Doc) -> bool {
        &&& self.id == other.id
        &&& self.nodes@ == other.nodes@
        &&& self.pages@ == other.pages@
        &&& self.active_page == other.active_page
        &&& self.selection@ == other.selection@
        &&& self.components@ == other.components@
        &&& self.sets@ == other.sets@
        &&& self.tracks@ == other.tracks@
    }

    /// Everything but the content is as in the other document.
    pub open spec fn keeps_rest(self, other: Doc) -> bool {
        &&& self.id == other.id
        &&& self.pages == other.pages
        &&& self.active_page == other.active_page
        &&& self.selection == other.selection
    }

    /// A document to try operations on.
    pub fn copy(&self) -> (r: Doc)
        ensures
            r.same_as(*self),
    {
        let mut components: Vec<ComponentDef> = Vec::new();
        let mut i: usize = 0;
        while i < self.components.len()
            invariant
                i <= self.components@.len(),
                components@ == self.components@.take(i as int),
            decreases self.components@.len() - i,
        {
            components.push(self.components[i].copy());
            assert(self.components@.take(i + 1) =~= self.components@.take(i as int).push(
                self.components@[i as int],
            ));
            i = i + 1;
        }
        let mut sets: Vec<ComponentSet> = Vec::new();
        let mut j: usize = 0;
        while j < self.sets.len()
            invariant
                j <= self.sets@.len(),
                sets@ == self.sets@.take(j as int),
            decreases self.sets@.len() - j,
        {
            sets.push(self.sets[j].copy());
            assert(self.sets@.take(j + 1) =~= self.sets@.take(j as int).push(self.sets@[j as int]));
            j = j + 1;
        }
        let mut tracks: Vec<AnimationTrack> = Vec::new();
        let mut k: usize = 0;
        while k < self.tracks.len()
            invariant
                k <= self.tracks@.len(),
                tracks@ == self.tracks@.take(k as int),
            decreases self.tracks@.len() - k,
        {
            tracks.push(self.tracks[k]);
            assert(self.tracks@.take(k + 1) =~= self.tracks@.take(k as int).push(
                self.tracks@[k as int],
            ));
            k = k + 1;
        }
        proof {
            assert(self.components@.take(self.components@.len() as int) =~= self.components@);
            assert(self.sets@.take(self.sets@.len() as int) =~= self.sets@);
            assert(self.tracks@.take(self.tracks@.len() as int) =~= self.tracks@);
        }
        Doc {
            id: self.id,
            nodes: copy_nodes(&self.nodes),
            pages: copy_ids(&self.pages),
            active_page: self.active_page,
            selection: copy_ids(&self.selection),
            components,
            sets,
            tracks,
        }
    }

    fn place_of_set(&self, id: ComponentId) -> (place: Option<usize>)
        requires
            self.well_formed(),
        ensures
            match place {
                Some(i) => i < self.sets@.len() && self.sets@[i as int].id == id
                    && self.content().sets.dom().contains(id) && self.content().sets[id]
                    == self.sets@[i as int],
                None => !self.content().sets.dom().contains(id),
            },
    {
        let ghost key = crate::operations::set_key();
        let mut i: usize = 0;
        while i < self.sets.len()
            invariant
                i <= self.sets@.len(),
                self.well_formed(),
                key == crate::operations::set_key(),
                forall|k: int| 0 <= k < i ==> (#[trigger] self.sets@[k]).id != id,
            decreases self.sets@.len() - i,
        {
            if self.sets[i].id == id {
                proof {
                    crate::keyed::lemma_keyed_at(self.sets@, key, i as int);
                }
                return Some(i);
            }
            i = i + 1;
        }
        proof {
            crate::keyed::lemma_keyed_contains(self.sets@, key, id);
        }
        None
    }

    fn place_of_component(&self, id: ComponentId) -> (place: Option<usize>)
        requires
            self.well_formed(),
        ensures
            match place {
                Some(i) => i < self.components@.len() && self.components@[i as int].id == id
                    && self.content().components.dom().contains(id) && self.content().components[id]
                    == self.components@[i as int],
                None => !self.content().components.dom().contains(id),
            },
    {
        let ghost key = crate::operations::component_key();
        let mut i: usize = 0;
        while i < self.components.len()
            invariant
                i <= self.components@.len(),
                self.well_formed(),
                key == crate::operations::component_key(),
                forall|k: int| 0 <= k < i ==> (#[trigger] self.components@[k]).id != id,
            decreases self.components@.len() - i,
        {
            if self.components[i].id == id {
                proof {
                    crate::keyed::lemma_keyed_at(self.components@, key, i as int);
                }
                return Some(i);
            }
            i = i + 1;
        }
        proof {
            crate::keyed::lemma_keyed_contains(self.components@, key, id);
        }
        None
    }

    fn place_of_track(&self, clip: ClipId, track: TrackId) -> (place: Option<usize>)
        requires
            self.well_formed(),
        ensures
            match place {
                Some(i) => i < self.tracks@.len() && (
                    self.tracks@[i as int].clip,
                    self.tracks@[i as int].id,
                ) == (clip, track) && self.content().tracks.dom().contains((clip, track)),
                None => !self.content().tracks.dom().contains((clip, track)),
            },
    {
        let ghost key = crate::operations::track_key();
        let mut i: usize = 0;
        while i < self.tracks.len()
            invariant
                i <= self.tracks@.len(),
                self.well_formed(),
                key == crate::operations::track_key(),
                forall|k: int|
                    0 <= k < i ==> key(#[trigger] self.tracks@[k]) != (clip, track),
            decreases self.tracks@.len() - i,
        {
            if self.tracks[i].clip == clip && self.tracks[i].id == track {
                proof {
                    crate::keyed::lemma_keyed_at(self.tracks@, key, i as int);
                }
                return Some(i);
            }
            i = i + 1;
        }
        proof {
            crate::keyed::lemma_keyed_contains(self.tracks@, key, (clip, track));
        }
        None
    }

    fn put_node(&mut self, place: usize, node: CanvasNode)
        requires
            old(self).well_formed(),
            place < old(self).nodes@.len(),
            node.id == old(self).nodes@[place as int].id,
        ensures
            final(self).well_formed(),
            final(self).content() == crate::operations::with_node(old(self).content(), node),
            final(self).keeps_rest(*old(self)),
    {
        proof {
            crate::keyed::lemma_keyed_update(
                self.nodes@,
                crate::operations::node_key(),
                place as int,
                node,
            );
        }
        self.nodes.set(place, node);
    }

    fn add_node(&mut self, node: CanvasNode)
        requires
            old(self).well_formed(),
            !old(self).content().nodes.dom().contains(node.id),
        ensures
            final(self).well_formed(),
            final(self).content() == crate::operations::with_node(old(self).content(), node),
            final(self).keeps_rest(*old(self)),
    {
        proof {
            let key = crate::operations::node_key();
            crate::keyed::lemma_keyed_push(self.nodes@, key, node);
            crate::keyed::lemma_keyed_contains(self.nodes@, key, node.id);
            assert forall|i: int, j: int| 0 <= i < j < self.nodes@.push(node).len() implies key(
                #[trigger] self.nodes@.push(node)[i],
            ) != key(#[trigger] self.nodes@.push(node)[j]) by {
                assert(key(self.nodes@[i]) == self.nodes@[i].id);
                if j < self.nodes@.len() {
                    assert(key(self.nodes@[i]) != key(self.nodes@[j]));
                }
            }
        }
        self.nodes.push(node);
    }

    fn drop_node(&mut self, id: NodeId)
        requires
            old(self).well_formed(),
            old(self).content().nodes.dom().contains(id),
        ensures
            final(self).well_formed(),
            final(self).content() == (crate::operations::Content {
                nodes: old(self).content().nodes.remove(id),
                ..old(self).content()
            }),
            final(self).keeps_rest(*old(self)),
    {
        proof {
            crate::operations::lemma_find_is_content(*self, id);
        }
        match self.place_of(id) {
            Some(place) => {
                proof {
                    crate::keyed::lemma_keyed_remove(
                        self.nodes@,
                        crate::operations::node_key(),
                        place as int,
                    );
                }
                self.nodes.remove(place);
            },
            None => {},
        }
    }

    fn holds_all(&self, snapshot: &Vec<CanvasNode>, present: bool) -> (r: bool)
        requires
            self.well_formed(),
        ensures
            r == forall|i: int|
                0 <= i < snapshot@.len() ==> self.content().nodes.dom().contains(
                    (#[trigger] snapshot@[i]).id,
                ) == present,
    {
        let mut i: usize = 0;
        while i < snapshot.len()
            invariant
                i <= snapshot@.len(),
                self.well_formed(),
                forall|k: int|
                    0 <= k < i ==> self.content().nodes.dom().contains((#[trigger] snapshot@[k]).id)
                        == present,
            decreases snapshot@.len() - i,
        {
            proof {
                crate::operations::lemma_find_is_content(*self, snapshot@[i as int].id);
            }
            if self.contains(snapshot[i].id) != present {
                return false;
            }
            i = i + 1;
        }
        true
    }

    /// Carries an operation out.
    pub fn apply(&mut self, operation: &Operation) -> (r: Result<(), NotApplicable>)
        requires
            old(self).well_formed(),
        ensures
            r is Ok <==> crate::operations::applicable(old(self).content(), *operation),
            r is Ok ==> final(self).content() == crate::operations::applied(
                old(self).content(),
                *operation,
            ),
            r is Err ==> *final(self) == *old(self),
            final(self).well_formed(),
            final(self).keeps_rest(*old(self)),
    {
        let ghost before = *self;
        if let Some(id) = operation.changed_layer() {
            proof {
                crate::operations::lemma_find_is_content(*self, id);
            }
            return match self.place_of(id) {
                Some(place) => {
                    let node = changed_copy(&self.nodes[place], operation);
                    self.put_node(place, node);
                    Ok(())
                },
                None => Err(NotApplicable),
            };
        }
        match operation {
            Operation::CreateNode { node } => {
                proof {
                    crate::operations::lemma_find_is_content(*self, node.id);
                }
                if self.contains(node.id) {
                    Err(NotApplicable)
                } else {
                    self.add_node(node.copy());
                    Ok(())
                }
            },
            Operation::DeleteNode { node } => {
                proof {
                    crate::operations::lemma_find_is_content(*self, node.id);
                }
                if self.contains(node.id) {
                    self.drop_node(node.id);
                    Ok(())
                } else {
                    Err(NotApplicable)
                }
            },
            Operation::DeleteSubtree { snapshot } => {
                if !layers_distinct(snapshot) || !self.holds_all(snapshot, true) {
                    return Err(NotApplicable);
                }
                let mut i: usize = 0;
                assert(snapshot@.take(0) =~= Seq::<CanvasNode>::empty());
                while i < snapshot.len()
                    invariant
                        i <= snapshot@.len(),
                        self.well_formed(),
                        crate::keyed::distinct(snapshot@, crate::operations::node_key()),
                        self.keeps_rest(before),
                        self.content() == (crate::operations::Content {
                            nodes: crate::operations::without_all(
                                before.content().nodes,
                                snapshot@.take(i as int),
                            ),
                            ..before.content()
                        }),
                        forall|k: int|
                            i <= k < snapshot@.len() ==> self.content().nodes.dom().contains(
                                (#[trigger] snapshot@[k]).id,
                            ),
                    decreases snapshot@.len() - i,
                {
                    let ghost nodes = self.content().nodes;
                    self.drop_node(snapshot[i].id);
                    proof {
                        assert(snapshot@.take(i + 1).drop_last() =~= snapshot@.take(i as int));
                        assert(snapshot@.take(i + 1).last() == snapshot@[i as int]);
                        let key = crate::operations::node_key();
                        assert forall|k: int| i + 1 <= k < snapshot@.len() implies self.content().nodes.dom().contains(
                            (#[trigger] snapshot@[k]).id,
                        ) by {
                            assert(key(snapshot@[i as int]) != key(snapshot@[k]));
                        }
                    }
                    i = i + 1;
                }
                assert(snapshot@.take(snapshot@.len() as int) =~= snapshot@);
                Ok(())
            },
            Operation::RestoreSubtree { snapshot } => {
                if !layers_distinct(snapshot) || !self.holds_all(snapshot, false) {
                    return Err(NotApplicable);
                }
                let mut i: usize = 0;
                assert(snapshot@.take(0) =~= Seq::<CanvasNode>::empty());
                while i < snapshot.len()
                    invariant
                        i <= snapshot@.len(),
                        self.well_formed(),
                        crate::keyed::distinct(snapshot@, crate::operations::node_key()),
                        self.keeps_rest(before),
                        self.content() == (crate::operations::Content {
                            nodes: crate::operations::with_all(
                                before.content().nodes,
                                snapshot@.take(i as int),
                            ),
                            ..before.content()
                        }),
                        forall|k: int|
                            i <= k < snapshot@.len() ==> !self.content().nodes.dom().contains(
                                (#[trigger] snapshot@[k]).id,
                            ),
                    decreases snapshot@.len() - i,
                {
                    self.add_node(snapshot[i].copy());
                    proof {
                        assert(snapshot@.take(i + 1).drop_last() =~= snapshot@.take(i as int));
                        assert(snapshot@.take(i + 1).last() == snapshot@[i as int]);
                        let key = crate::operations::node_key();
                        assert forall|k: int| i + 1 <= k < snapshot@.len() implies !self.content().nodes.dom().contains(
                            (#[trigger] snapshot@[k]).id,
                        ) by {
                            assert(key(snapshot@[i as int]) != key(snapshot@[k]));
                        }
                    }
                    i = i + 1;
                }
                assert(snapshot@.take(snapshot@.len() as int) =~= snapshot@);
                Ok(())
            },
            Operation::SetComponentSet { id, new, .. } => {
                if new.id != *id {
                    return Err(NotApplicable);
                }
                match self.place_of_set(*id) {
                    Some(place) => {
                        let set = new.copy();
                        proof {
                            crate::keyed::lemma_keyed_update(
                                self.sets@,
                                crate::operations::set_key(),
                                place as int,
                                set,
                            );
                        }
                        self.sets.set(place, set);
                        Ok(())
                    },
                    None => Err(NotApplicable),
                }
            },
            Operation::DeleteComponentSet { id, .. } => {
                match self.place_of_set(*id) {
                    Some(place) => {
                        proof {
                            crate::keyed::lemma_keyed_remove(
                                self.sets@,
                                crate::operations::set_key(),
                                place as int,
                            );
                        }
                        self.sets.remove(place);
                        Ok(())
                    },
                    None => Err(NotApplicable),
                }
            },
            Operation::InsertComponentSet { id, set } => {
                if set.id != *id {
                    return Err(NotApplicable);
                }
                match self.place_of_set(*id) {
                    Some(_) => Err(NotApplicable),
                    None => {
                        let set = set.copy();
                        proof {
                            let key = crate::operations::set_key();
                            crate::keyed::lemma_keyed_push(self.sets@, key, set);
                            crate::keyed::lemma_keyed_contains(self.sets@, key, *id);
                            assert forall|i: int, j: int|
                                0 <= i < j < self.sets@.push(set).len() implies key(
                                #[trigger] self.sets@.push(set)[i],
                            ) != key(#[trigger] self.sets@.push(set)[j]) by {
                                assert(key(self.sets@[i]) == self.sets@[i].id);
                                if j < self.sets@.len() {
                                    assert(key(self.sets@[i]) != key(self.sets@[j]));
                                }
                            }
                        }
                        self.sets.push(set);
                        Ok(())
                    },
                }
            },
            Operation::DeleteComponent { id, .. } => {
                match self.place_of_component(*id) {
                    Some(place) => {
                        proof {
                            crate::keyed::lemma_keyed_remove(
                                self.components@,
                                crate::operations::component_key(),
                                place as int,
                            );
                        }
                        self.components.remove(place);
                        Ok(())
                    },
                    None => Err(NotApplicable),
                }
            },
            Operation::InsertComponent { id, def } => {
                if def.id != *id {
                    return Err(NotApplicable);
                }
                match self.place_of_component(*id) {
                    Some(_) => Err(NotApplicable),
                    None => {
                        let def = def.copy();
                        proof {
                            let key = crate::operations::component_key();
                            crate::keyed::lemma_keyed_push(self.components@, key, def);
                            crate::keyed::lemma_keyed_contains(self.components@, key, *id);
                            assert forall|i: int, j: int|
                                0 <= i < j < self.components@.push(def).len() implies key(
                                #[trigger] self.components@.push(def)[i],
                            ) != key(#[trigger] self.components@.push(def)[j]) by {
                                assert(key(self.components@[i]) == self.components@[i].id);
                                if j < self.components@.len() {
                                    assert(key(self.components@[i]) != key(self.components@[j]));
                                }
                            }
                        }
                        self.components.push(def);
                        Ok(())
                    },
                }
            },
            Operation::SetAnimationTrack { clip, track, new, .. } => {
                let ghost key = crate::operations::track_key();
                match new {
                    Some(new) => {
                        if new.clip != *clip || new.id != *track {
                            return Err(NotApplicable);
                        }
                        match self.place_of_track(*clip, *track) {
                            Some(place) => {
                                proof {
                                    crate::keyed::lemma_keyed_update(
                                        self.tracks@,
                                        key,
                                        place as int,
                                        *new,
                                    );
                                }
                                self.tracks.set(place, *new);
                            },
                            None => {
                                proof {
                                    crate::keyed::lemma_keyed_push(self.tracks@, key, *new);
                                    crate::keyed::lemma_keyed_contains(
                                        self.tracks@,
                                        key,
                                        (*clip, *track),
                                    );
                                    assert forall|i: int, j: int|
                                        0 <= i < j < self.tracks@.push(*new).len() implies key(
                                        #[trigger] self.tracks@.push(*new)[i],
                                    ) != key(#[trigger] self.tracks@.push(*new)[j]) by {
                                        if j < self.tracks@.len() {
                                            assert(key(self.tracks@[i]) != key(self.tracks@[j]));
                                        } else {
                                            assert(self.tracks@.push(*new)[i] == self.tracks@[i]);
                                            assert(key(self.tracks@[i]) != (*clip, *track));
                                        }
                                    }
                                }
                                self.tracks.push(*new);
                            },
                        }
                        Ok(())
                    },
                    None => {
                        match self.place_of_track(*clip, *track) {
                            Some(place) => {
                                proof {
                                    crate::keyed::lemma_keyed_remove(
                                        self.tracks@,
                                        key,
                                        place as int,
                                    );
                                }
                                self.tracks.remove(place);
                            },
                            None => {
                                assert(self.content().tracks.remove((*clip, *track))
                                    =~= self.content().tracks);
                            },
                        }
                        Ok(())
                    },
                }
            },
            _ => Err(NotApplicable),
        }
    }

    /// Carries a list of operations out in order, up to the first that cannot
    /// be carried out.
    pub fn apply_all(&mut self, operations: &Vec<Operation>) -> (r: Result<(), NotApplicable>)
        requires
            old(self).well_formed(),
        ensures
            r is Ok <==> crate::operations::carried(old(self).content(), operations@),
            r is Err ==> exists|n: int|
                0 <= n < operations@.len() && crate::operations::carried(
                    old(self).content(),
                    #[trigger] operations@.take(n),
                ) && final(self).content() == crate::operations::all_applied(
                    old(self).content(),
                    operations@.take(n),
                ) && !crate::operations::applicable(final(self).content(), operations@[n]),
            r is Ok ==> final(self).content() == crate::operations::all_applied(
                old(self).content(),
                operations@,
            ),
            final(self).well_formed(),
            final(self).keeps_rest(*old(self)),
    {
        let ghost before = *self;
        let mut i: usize = 0;
        assert(operations@.take(0) =~= Seq::<Operation>::empty());
        while i < operations.len()
            invariant
                crate::operations::carried(before.content(), operations@.take(i as int)),
                i <= operations@.len(),
                self.well_formed(),
                self.keeps_rest(before),
                self.content() == crate::operations::all_applied(
                    before.content(),
                    operations@.take(i as int),
                ),
                before == *old(self),
            decreases operations@.len() - i,
        {
            proof {
                assert(operations@.take(i + 1).drop_last() =~= operations@.take(i as int));
                assert(operations@.take(i + 1).last() == operations@[i as int]);
                if crate::operations::carried(before.content(), operations@) {
                    lemma_carried_prefix(before.content(), operations@, i + 1);
                }
            }
            match self.apply(&operations[i]) {
                Ok(_) => {},
                Err(error) => {
                    return Err(error);
                },
            }
            i = i + 1;
        }
        assert(operations@.take(operations@.len() as int) =~= operations@);
        Ok(())
    }
}

fn has_distinct_nodes(nodes: &Vec<CanvasNode>) -> (r: bool)
    ensures
        r == crate::keyed::distinct(nodes@, crate::operations::node_key()),
{
    let ghost key = crate::operations::node_key();
    let mut j: usize = 0;
    while j < nodes.len()
        invariant
            j <= nodes@.len(),
            key == crate::operations::node_key(),
            crate::keyed::distinct(nodes@.take(j as int), key),
        decreases nodes@.len() - j,
    {
        let mut i: usize = 0;
        while i < j
            invariant
                i <= j < nodes@.len(),
                key == crate::operations::node_key(),
                forall|k: int| 0 <= k < i ==> key(#[trigger] nodes@[k]) != key(nodes@[j as int]),
            decreases j - i,
        {
            if nodes[i].id == nodes[j].id {
                assert(key(nodes@[i as int]) == key(nodes@[j as int]));
                return false;
            }
            i = i + 1;
        }
        proof {
            let longer = nodes@.take(j + 1);
            assert forall|a: int, b: int| 0 <= a < b < longer.len() implies key(
                #[trigger] longer[a],
            ) != key(#[trigger] longer[b]) by {
                if b < j {
                    assert(key(nodes@.take(j as int)[a]) != key(nodes@.take(j as int)[b]));
                } else {
                    assert(key(nodes@[a]) != key(nodes@[j as int]));
                }
            }
        }
        j = j + 1;
    }
    assert(nodes@.take(nodes@.len() as int) =~= nodes@);
    true
}

fn has_distinct_components(components: &Vec<ComponentDef>) -> (r: bool)
    ensures
        r == crate::keyed::distinct(components@, crate::operations::component_key()),
{
    let ghost key = crate::operations::component_key();
    let mut j: usize = 0;
    while j < components.len()
        invariant
            j <= components@.len(),
            key == crate::operations::component_key(),
            crate::keyed::distinct(components@.take(j as int), key),
        decreases components@.len() - j,
    {
        let mut i: usize = 0;
        while i < j
            invariant
                i <= j < components@.len(),
                key == crate::operations::component_key(),
                forall|k: int|
                    0 <= k < i ==> key(#[trigger] components@[k]) != key(components@[j as int]),
            decreases j - i,
        {
            if components[i].id == components[j].id {
                assert(key(components@[i as int]) == key(components@[j as int]));
                return false;
            }
            i = i + 1;
        }
        proof {
            let longer = components@.take(j + 1);
            assert forall|a: int, b: int| 0 <= a < b < longer.len() implies key(
                #[trigger] longer[a],
            ) != key(#[trigger] longer[b]) by {
                if b < j {
                    assert(key(components@.take(j as int)[a]) != key(
                        components@.take(j as int)[b],
                    ));
                } else {
                    assert(key(components@[a]) != key(components@[j as int]));
                }
            }
        }
        j = j + 1;
    }
    assert(components@.take(components@.len() as int) =~= components@);
    true
}

fn has_distinct_sets(sets: &Vec<ComponentSet>) -> (r: bool)
    ensures
        r == crate::keyed::distinct(sets@, crate::operations::set_key()),
{
    let ghost key = crate::operations::set_key();
    let mut j: usize = 0;
    while j < sets.len()
        invariant
            j <= sets@.len(),
            key == crate::operations::set_key(),
            crate::keyed::distinct(sets@.take(j as int), key),
        decreases sets@.len() - j,
    {
        let mut i: usize = 0;
        while i < j
            invariant
                i <= j < sets@.len(),
                key == crate::operations::set_key(),
                forall|k: int| 0 <= k < i ==> key(#[trigger] sets@[k]) != key(sets@[j as int]),
            decreases j - i,
        {
            if sets[i].id == sets[j].id {
                assert(key(sets@[i as int]) == key(sets@[j as int]));
                return false;
            }
            i = i + 1;
        }
        proof {
            let longer = sets@.take(j + 1);
            assert forall|a: int, b: int| 0 <= a < b < longer.len() implies key(
                #[trigger] longer[a],
            ) != key(#[trigger] longer[b]) by {
                if b < j {
                    assert(key(sets@.take(j as int)[a]) != key(sets@.take(j as int)[b]));
                } else {
                    assert(key(sets@[a]) != key(sets@[j as int]));
                }
            }
        }
        j = j + 1;
    }
    assert(sets@.take(sets@.len() as int) =~= sets@);
    true
}

fn has_distinct_tracks(tracks: &Vec<AnimationTrack>) -> (r: bool)
    ensures
        r == crate::keyed::distinct(tracks@, crate::operations::track_key()),
{
    let ghost key = crate::operations::track_key();
    let mut j: usize = 0;
    while j < tracks.len()
        invariant
            j <= tracks@.len(),
            key == crate::operations::track_key(),
            crate::keyed::distinct(tracks@.take(j as int), key),
        decreases tracks@.len() - j,
    {
        let mut i: usize = 0;
        while i < j
            invariant
                i <= j < tracks@.len(),
                key == crate::operations::track_key(),
                forall|k: int| 0 <= k < i ==> key(#[trigger] tracks@[k]) != key(tracks@[j as int]),
            decreases j - i,
        {
            if tracks[i].clip == tracks[j].clip && tracks[i].id == tracks[j].id {
                assert(key(tracks@[i as int]) == key(tracks@[j as int]));
                return false;
            }
            i = i + 1;
        }
        proof {
            let longer = tracks@.take(j + 1);
            assert forall|a: int, b: int| 0 <= a < b < longer.len() implies key(
                #[trigger] longer[a],
            ) != key(#[trigger] longer[b]) by {
                if b < j {
                    assert(key(tracks@.take(j as int)[a]) != key(tracks@.take(j as int)[b]));
                } else {
                    assert(key(tracks@[a]) != key(tracks@[j as int]));
                }
            }
        }
        j = j + 1;
    }
    assert(tracks@.take(tracks@.len() as int) =~= tracks@);
    true
}

impl Doc {
    /// Whether no two layers, components, sets or tracks share an identity.
    pub fn is_well_formed(&self) -> (r: bool)
        ensures
            r == self.well_formed(),
    {
        has_distinct_nodes(&self.nodes) && has_distinct_components(&self.components)
            && has_distinct_sets(&self.sets) && has_distinct_tracks(&self.tracks)
    }
}

/// The beginning of a list that can be carried out can be carried out.
pub proof fn lemma_carried_prefix(
    content: crate::operations::Content,
    operations: Seq<Operation>,
    n: int,
)
    requires
        0 <= n <= operations.len(),
    ensures
        crate::operations::carried(content, operations) ==> crate::operations::carried(
            content,
            operations.take(n),
        ),
    decreases operations.len(),
{
    if n == operations.len() {
        assert(operations.take(n) =~= operations);
    } else {
        lemma_carried_prefix(content, operations.drop_last(), n);
        assert(operations.drop_last().take(n) =~= operations.take(n));
    }
}

} // verus!
