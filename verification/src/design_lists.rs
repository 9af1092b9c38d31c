//! Adding to, removing from and reordering a layer's paints and effects, and the
//! small edits of components and pages.

use std::sync::Arc;

use vstd::prelude::*;

use crate::design_data::renew;
use crate::design_effects::{copy_blurs, copy_shadows, set_blurs, set_shadows, EffectKind, EffectRef};
use crate::document::{
    Blur, BlurKind, BoundProp, ComponentPropDef, ComponentPropKind, Doc, GroupNode, NodeData,
    Shadow, ShadowKind, VarValue, VectorNode,
};
use crate::design_values::DesignProperty;
use crate::ids::{ComponentId, ComponentPropId, NodeId};
use crate::operations::Operation;
use crate::paint::{BlendMode, Color, Fill, Stroke};
use crate::scalar::Scalar;

verus! {

// ---------------------------------------------------------------------------
// Paints
// ---------------------------------------------------------------------------

/// The list with one item moved to another place.
pub open spec fn moved_item<T>(list: Seq<T>, from: int, to: int) -> Seq<T> {
    list.remove(from).insert(to, list[from])
}

/// Edits of a list.
#[derive(Clone, Copy, Debug, PartialEq, Eq, Structural)]
pub enum ListEdit {
    Move { from: usize, to: usize },
    Remove { index: usize },
    Append,
}

/// The edit fits a list of a length.
pub open spec fn fits(edit: ListEdit, length: nat) -> bool {
    match edit {
        ListEdit::Move { from, to } => from < length && to < length,
        ListEdit::Remove { index } => index < length,
        ListEdit::Append => true,
    }
}

pub open spec fn list_edited<T>(list: Seq<T>, edit: ListEdit, new: T) -> Seq<T> {
    match edit {
        ListEdit::Move { from, to } => moved_item(list, from as int, to as int),
        ListEdit::Remove { index } => list.remove(index as int),
        ListEdit::Append => list.push(new),
    }
}

/// The data with another list of strokes, and otherwise as it was.
pub open spec fn strokes_set(old: NodeData, strokes: Seq<Stroke>, new: NodeData) -> bool {
    match (old, new) {
        (NodeData::Vector(a), NodeData::Vector(b)) => b == (VectorNode { strokes: b.strokes, ..a })
            && b.strokes@ == strokes,
        (NodeData::Group(a), NodeData::Group(b)) => b == (GroupNode { strokes: b.strokes, ..a })
            && b.strokes@ == strokes,
        _ => false,
    }
}

/// The data with its fills in another order, and otherwise as it was. A group
/// that has a background keeps one: the first fill is it.
pub open spec fn fills_set(old: NodeData, fills: Seq<Fill>, new: NodeData) -> bool {
    match (old, new) {
        (NodeData::Vector(a), NodeData::Vector(b)) => b == (VectorNode { fills: b.fills, ..a })
            && b.fills@ == fills,
        (NodeData::Group(a), NodeData::Group(b)) => b == (GroupNode {
            background: b.background,
            background_fills: b.background_fills,
            ..a
        }) && b.background is Some == a.background is Some && crate::design_paints::fill_slots(new)
            == fills,
        _ => false,
    }
}

/// The layer can be stroked.
pub open spec fn strokable(data: NodeData) -> bool {
    data is Vector || data is Group
}

/// What an edit of a layer's strokes does; one that does not fit, or that leaves
/// the layer as it is, does nothing.
pub open spec fn stroke_list_outcome(
    doc: Doc,
    id: NodeId,
    edit: ListEdit,
    new: Stroke,
    operations: Seq<Operation>,
) -> bool {
    match crate::scene::find(doc.nodes@, id) {
        Some(node) => if strokable(*node.data) && fits(
            edit,
            crate::design_paints::stroke_slots(*node.data).len(),
        ) {
            exists|data: NodeData| #[trigger]
                strokes_set(
                    *node.data,
                    list_edited(crate::design_paints::stroke_slots(*node.data), edit, new),
                    data,
                ) && crate::design_data::renews(operations, node, data)
        } else {
            operations.len() == 0
        },
        None => operations.len() == 0,
    }
}

fn edit_strokes(strokes: &Vec<Stroke>, edit: ListEdit, new: &Stroke) -> (r: Option<Vec<Stroke>>)
    ensures
        match r {
            Some(edited) => fits(edit, strokes@.len()) && edited@ == list_edited(
                strokes@,
                edit,
                *new,
            ),
            None => !fits(edit, strokes@.len()),
        },
{
    let mut copy: Vec<Stroke> = Vec::new();
    let mut i: usize = 0;
    while i < strokes.len()
        invariant
            i <= strokes@.len(),
            copy@ == strokes@.take(i as int),
        decreases strokes@.len() - i,
    {
        copy.push(strokes[i].copy());
        assert(copy@ =~= strokes@.take(i + 1));
        i = i + 1;
    }
    assert(copy@ =~= strokes@);
    match edit {
        ListEdit::Move { from, to } => {
            if from >= copy.len() || to >= copy.len() {
                return None;
            }
            let item = copy.remove(from);
            copy.insert(to, item);
        },
        ListEdit::Remove { index } => {
            if index >= copy.len() {
                return None;
            }
            let _removed = copy.remove(index);
        },
        ListEdit::Append => {
            copy.push(new.copy());
        },
    }
    Some(copy)
}

/// Edits the list of a layer's strokes. A stroke that is appended is `new`.
pub fn stroke_list_operations(doc: &Doc, id: NodeId, edit: ListEdit, new: &Stroke) -> (operations:
    Vec<Operation>)
    ensures
        stroke_list_outcome(*doc, id, edit, *new, operations@),
{
    let node = match doc.get(id) {
        Some(node) => node,
        None => {
            return Vec::new();
        },
    };
    match &*node.data {
        NodeData::Vector(vector) => {
            if let Some(strokes) = edit_strokes(&vector.strokes, edit, new) {
                let data = NodeData::Vector(
                    VectorNode { strokes: Arc::new(strokes), ..vector.copy() },
                );
                assert(strokes_set(
                    *node.data,
                    list_edited(crate::design_paints::stroke_slots(*node.data), edit, *new),
                    data,
                ));
                return renew(node, data);
            }
        },
        NodeData::Group(group) => {
            if let Some(strokes) = edit_strokes(&group.strokes, edit, new) {
                let data = NodeData::Group(
                    GroupNode { strokes: Arc::new(strokes), ..group.copy() },
                );
                assert(strokes_set(
                    *node.data,
                    list_edited(crate::design_paints::stroke_slots(*node.data), edit, *new),
                    data,
                ));
                return renew(node, data);
            }
        },
        _ => {},
    }
    Vec::new()
}

/// What moving one of a layer's fills does; nothing where the layer stays as it is.
pub open spec fn fill_move_outcome(
    doc: Doc,
    id: NodeId,
    from: usize,
    to: usize,
    operations: Seq<Operation>,
) -> bool {
    match crate::scene::find(doc.nodes@, id) {
        Some(node) => {
            let slots = crate::design_paints::fill_slots(*node.data);
            if from < slots.len() && to < slots.len() {
                exists|new: NodeData| #[trigger]
                    fills_set(*node.data, moved_item(slots, from as int, to as int), new)
                        && crate::design_data::renews(operations, node, new)
            } else {
                operations.len() == 0
            }
        },
        None => operations.len() == 0,
    }
}

/// Moves one of a layer's fills to another place.
pub fn fill_move_operations(doc: &Doc, id: NodeId, from: usize, to: usize) -> (operations: Vec<
    Operation,
>)
    ensures
        fill_move_outcome(*doc, id, from, to, operations@),
{
    let node = match doc.get(id) {
        Some(node) => node,
        None => {
            return Vec::new();
        },
    };
    match &*node.data {
        NodeData::Vector(vector) => {
            if from < vector.fills.len() && to < vector.fills.len() {
                let mut fills = vector.fills.copy();
                let item = fills.remove(from);
                fills.insert(to, item);
                let data = NodeData::Vector(VectorNode { fills, ..vector.copy() });
                assert(fills_set(
                    *node.data,
                    moved_item(
                        crate::design_paints::fill_slots(*node.data),
                        from as int,
                        to as int,
                    ),
                    data,
                ));
                return renew(node, data);
            }
        },
        NodeData::Group(group) => {
            if let Some(moved) = move_background(group, from, to) {
                let data = NodeData::Group(moved);
                assert(fills_set(
                    *node.data,
                    moved_item(
                        crate::design_paints::fill_slots(*node.data),
                        from as int,
                        to as int,
                    ),
                    data,
                ));
                return renew(node, data);
            }
        },
        _ => {},
    }
    Vec::new()
}

fn move_background(group: &GroupNode, from: usize, to: usize) -> (r: Option<GroupNode>)
    ensures
        ({
            let slots = crate::design_paints::fill_slots(NodeData::Group(*group));
            match r {
                Some(moved) => from < slots.len() && to < slots.len() && fills_set(
                    NodeData::Group(*group),
                    moved_item(slots, from as int, to as int),
                    NodeData::Group(moved),
                ),
                None => !(from < slots.len() && to < slots.len()),
            }
        }),
{
    let ghost slots = crate::design_paints::fill_slots(NodeData::Group(*group));
    let mut fills = group.background_fills.copy();
    match &group.background {
        None => {
            if from >= fills.len() || to >= fills.len() {
                return None;
            }
            let item = fills.remove(from);
            fills.insert(to, item);
            let moved = GroupNode { background_fills: fills, ..group.copy() };
            Some(moved)
        },
        Some(background) => {
            let rest: usize = fills.len();
            if from > rest || to > rest {
                return None;
            }
            fills.insert(0, background.copy());
            assert(fills@ =~= slots);
            let item = fills.remove(from);
            fills.insert(to, item);
            let ghost all = fills@;
            let first = fills.remove(0);
            let moved = GroupNode {
                background: Some(first),
                background_fills: fills,
                ..group.copy()
            };
            assert(crate::design_paints::fill_slots(NodeData::Group(moved)) =~= all);
            Some(moved)
        },
    }
}

/// Moving a fill there and back gives the list as it was.
pub proof fn lemma_move_undone<T>(list: Seq<T>, from: int, to: int)
    requires
        0 <= from < list.len(),
        0 <= to < list.len(),
    ensures
        moved_item(moved_item(list, from, to), to, from) == list,
        moved_item(list, from, to).len() == list.len(),
{
    let once = moved_item(list, from, to);
    assert(once.remove(to) =~= list.remove(from));
    assert(once[to] == list[from]);
    assert(list.remove(from).insert(from, list[from]) =~= list);
}

// ---------------------------------------------------------------------------
// Effects
// ---------------------------------------------------------------------------

/// A new effect joins its list at the end; a kind that documents do not keep
/// adds nothing.
pub open spec fn effect_add_outcome(
    doc: Doc,
    id: NodeId,
    kind: EffectKind,
    shadow: Shadow,
    radius: Scalar,
    operations: Seq<Operation>,
) -> bool {
    match crate::scene::find(doc.nodes@, id) {
        None => operations.len() == 0,
        Some(node) => match kind {
            EffectKind::DropShadow => operations.len() == 1 && crate::design_effects::sets_shadows(
                operations[0],
                node,
                node.effects@.push(shadow),
            ),
            EffectKind::InnerShadow => operations.len() == 1
                && crate::design_effects::sets_shadows(
                operations[0],
                node,
                node.effects@.push(Shadow { kind: ShadowKind::Inner, ..shadow }),
            ),
            EffectKind::LayerBlur => operations.len() == 1 && crate::design_effects::sets_blurs(
                operations[0],
                node,
                node.blurs@.push(Blur { kind: BlurKind::Layer, radius: radius }),
            ),
            EffectKind::BackgroundBlur => operations.len() == 1
                && crate::design_effects::sets_blurs(
                operations[0],
                node,
                node.blurs@.push(Blur { kind: BlurKind::Background, radius: radius }),
            ),
            EffectKind::Unsupported => operations.len() == 0,
        },
    }
}

/// Adds an effect. `shadow` and `radius` are what new effects come with.
pub fn effect_add_operations(
    doc: &Doc,
    id: NodeId,
    kind: EffectKind,
    shadow: Shadow,
    radius: Scalar,
) -> (operations: Vec<Operation>)
    ensures
        effect_add_outcome(*doc, id, kind, shadow, radius, operations@),
{
    let mut operations: Vec<Operation> = Vec::new();
    let node = match doc.get(id) {
        Some(node) => node,
        None => {
            return operations;
        },
    };
    match kind {
        EffectKind::DropShadow => {
            let mut shadows = copy_shadows(&node.effects);
            shadows.push(shadow);
            operations.push(set_shadows(node, shadows));
        },
        EffectKind::InnerShadow => {
            let mut shadows = copy_shadows(&node.effects);
            shadows.push(Shadow { kind: ShadowKind::Inner, ..shadow });
            operations.push(set_shadows(node, shadows));
        },
        EffectKind::LayerBlur => {
            let mut blurs = copy_blurs(&node.blurs);
            blurs.push(Blur { kind: BlurKind::Layer, radius });
            operations.push(set_blurs(node, blurs));
        },
        EffectKind::BackgroundBlur => {
            let mut blurs = copy_blurs(&node.blurs);
            blurs.push(Blur { kind: BlurKind::Background, radius });
            operations.push(set_blurs(node, blurs));
        },
        EffectKind::Unsupported => {},
    }
    operations
}

/// The effect leaves its list; where it is not there, nothing happens.
pub open spec fn effect_remove_outcome(
    doc: Doc,
    id: NodeId,
    reference: EffectRef,
    operations: Seq<Operation>,
) -> bool {
    match crate::scene::find(doc.nodes@, id) {
        None => operations.len() == 0,
        Some(node) => match reference {
            EffectRef::Shadow(index) => if index < node.effects@.len() {
                operations.len() == 1 && crate::design_effects::sets_shadows(
                    operations[0],
                    node,
                    node.effects@.remove(index as int),
                )
            } else {
                operations.len() == 0
            },
            EffectRef::Blur(index) => if index < node.blurs@.len() {
                operations.len() == 1 && crate::design_effects::sets_blurs(
                    operations[0],
                    node,
                    node.blurs@.remove(index as int),
                )
            } else {
                operations.len() == 0
            },
        },
    }
}

pub fn effect_remove_operations(doc: &Doc, id: NodeId, reference: EffectRef) -> (operations: Vec<
    Operation,
>)
    ensures
        effect_remove_outcome(*doc, id, reference, operations@),
{
    let mut operations: Vec<Operation> = Vec::new();
    let node = match doc.get(id) {
        Some(node) => node,
        None => {
            return operations;
        },
    };
    match reference {
        EffectRef::Shadow(index) => {
            if index < node.effects.len() {
                let mut shadows = copy_shadows(&node.effects);
                let _removed = shadows.remove(index);
                operations.push(set_shadows(node, shadows));
            }
        },
        EffectRef::Blur(index) => {
            if index < node.blurs.len() {
                let mut blurs = copy_blurs(&node.blurs);
                let _removed = blurs.remove(index);
                operations.push(set_blurs(node, blurs));
            }
        },
    }
    operations
}

// ---------------------------------------------------------------------------
// Components
// ---------------------------------------------------------------------------

/// The place of a component's definition.
pub open spec fn component_place(doc: Doc, id: ComponentId, at: int) -> bool {
    0 <= at < doc.components@.len() && doc.components@[at].id == id && forall|k: int|
        0 <= k < at ==> (#[trigger] doc.components@[k]).id != id
}

fn find_component(doc: &Doc, id: ComponentId) -> (at: Option<usize>)
    ensures
        match at {
            Some(at) => component_place(*doc, id, at as int),
            None => forall|k: int|
                0 <= k < doc.components@.len() ==> (#[trigger] doc.components@[k]).id != id,
        },
{
    let mut i: usize = 0;
    while i < doc.components.len()
        invariant
            i <= doc.components@.len(),
            forall|k: int| 0 <= k < i ==> (#[trigger] doc.components@[k]).id != id,
        decreases doc.components@.len() - i,
    {
        if doc.components[i].id == id {
            return Some(i);
        }
        i = i + 1;
    }
    None
}

/// The component of an instance.
pub open spec fn instance_component(doc: Doc, id: NodeId) -> Option<ComponentId> {
    match crate::scene::find(doc.nodes@, id) {
        Some(node) => match *node.data {
            NodeData::Instance(instance) => Some(instance.component),
            _ => None,
        },
        None => None,
    }
}

fn component_of(doc: &Doc, id: NodeId) -> (component: Option<ComponentId>)
    ensures
        component == instance_component(*doc, id),
{
    match doc.get(id) {
        Some(node) => match &*node.data {
            NodeData::Instance(instance) => Some(instance.component),
            _ => None,
        },
        None => None,
    }
}

/// The layer that draws the main component of an instance, where it is here.
pub open spec fn is_main_root(doc: Doc, id: NodeId, root: NodeId) -> bool {
    instance_component(doc, id) matches Some(component) && crate::scene::find(
        doc.nodes@,
        root,
    ) is Some && exists|at: int| #[trigger]
        component_place(doc, component, at) && doc.components@[at].root == root
}

pub fn main_component_root(doc: &Doc, id: NodeId) -> (root: Option<NodeId>)
    ensures
        match root {
            Some(root) => is_main_root(*doc, id, root),
            None => forall|root: NodeId| !is_main_root(*doc, id, root),
        },
{
    let component = match component_of(doc, id) {
        Some(component) => component,
        None => {
            return None;
        },
    };
    match find_component(doc, component) {
        Some(at) => {
            let root = doc.components[at].root;
            assert(component_place(*doc, component, at as int));
            if doc.contains(root) {
                Some(root)
            } else {
                proof {
                    assert forall|other: NodeId| !is_main_root(*doc, id, other) by {
                        if is_main_root(*doc, id, other) {
                            let place = choose|place: int| #[trigger]
                                component_place(*doc, component, place)
                                    && doc.components@[place].root == other;
                            lemma_place_unique(*doc, component, place, at as int);
                        }
                    }
                }
                None
            }
        },
        None => {
            proof {
                assert forall|other: NodeId| !is_main_root(*doc, id, other) by {
                    if is_main_root(*doc, id, other) {
                        let place = choose|place: int| #[trigger]
                            component_place(*doc, component, place)
                                && doc.components@[place].root == other;
                        assert(doc.components@[place].id == component);
                    }
                }
            }
            None
        },
    }
}

proof fn lemma_place_unique(doc: Doc, id: ComponentId, a: int, b: int)
    requires
        component_place(doc, id, a),
        component_place(doc, id, b),
    ensures
        a == b,
{
    if a < b {
        assert(doc.components@[a].id != id);
    } else if b < a {
        assert(doc.components@[b].id != id);
    }
}

/// The kind of a property in a list of definitions.
pub open spec fn kind_in(props: Seq<ComponentPropDef>, prop: ComponentPropId) -> Option<
    ComponentPropKind,
>
    decreases props.len(),
{
    if props.len() == 0 {
        None
    } else if props[0].id == prop {
        Some(props[0].kind)
    } else {
        kind_in(props.skip(1), prop)
    }
}

fn find_kind(props: &Vec<ComponentPropDef>, prop: ComponentPropId) -> (kind: Option<
    ComponentPropKind,
>)
    ensures
        kind == kind_in(props@, prop),
{
    let mut i: usize = 0;
    assert(props@.skip(0) =~= props@);
    while i < props.len()
        invariant
            i <= props@.len(),
            kind_in(props@, prop) == kind_in(props@.skip(i as int), prop),
        decreases props@.len() - i,
    {
        assert(props@.skip(i as int)[0] == props@[i as int]);
        if props[i].id == prop {
            return Some(props[i].kind);
        }
        assert(props@.skip(i as int).skip(1) =~= props@.skip(i + 1));
        i = i + 1;
    }
    None
}

/// The kind of a property of an instance, as the component has it that the
/// instance resolves to.
pub open spec fn has_prop_kind(
    doc: Doc,
    id: NodeId,
    resolved: Option<ComponentId>,
    prop: ComponentPropId,
    kind: Option<ComponentPropKind>,
) -> bool {
    match (instance_component(doc, id), resolved) {
        (Some(_), Some(component)) => if exists|at: int| #[trigger] component_place(doc, component, at) {
            exists|at: int| #[trigger]
                component_place(doc, component, at) && kind == kind_in(
                    doc.components@[at].props@,
                    prop,
                )
        } else {
            kind is None
        },
        _ => kind is None,
    }
}

/// The kind of a property of an instance. `resolved` is the component that the
/// host finds to define the instance.
pub fn current_prop_kind(
    doc: &Doc,
    id: NodeId,
    resolved: Option<ComponentId>,
    prop: ComponentPropId,
) -> (kind: Option<ComponentPropKind>)
    ensures
        has_prop_kind(*doc, id, resolved, prop, kind),
{
    let component = match (component_of(doc, id), resolved) {
        (Some(_), Some(component)) => component,
        _ => {
            return None;
        },
    };
    match find_component(doc, component) {
        Some(at) => {
            assert(component_place(*doc, component, at as int));
            find_kind(&doc.components[at].props, prop)
        },
        None => {
            proof {
                assert forall|place: int| !(#[trigger] component_place(*doc, component, place)) by {
                    if component_place(*doc, component, place) {
                        assert(doc.components@[place].id == component);
                    }
                }
            }
            None
        },
    }
}

/// A value that the panel gives a component's property. Of a text the panel also
/// says which finite number and which color it stands for.
#[derive(Debug, PartialEq)]
pub enum PropInput {
    Reset,
    Boolean(bool),
    Text { text: String, number: Option<Scalar>, color: Option<Color> },
    /// A value of another kind.
    Other,
}

/// What a value makes of a property: nothing where it does not fit, or else the
/// value to keep, or none to go back to the component's own.
pub open spec fn prop_value_of(kind: Option<ComponentPropKind>, input: PropInput) -> Option<
    Option<VarValue>,
> {
    match kind {
        Some(kind) => if kind == ComponentPropKind::InstanceSwap || kind
            == ComponentPropKind::Variant {
            None
        } else {
            match input {
                PropInput::Reset => Some(None),
                PropInput::Boolean(value) => if kind == ComponentPropKind::Bool {
                    Some(Some(VarValue::Boolean { value: value }))
                } else {
                    None
                },
                PropInput::Text { text, number, color } => match kind {
                    ComponentPropKind::Number => match number {
                        Some(number) => if number.finite() {
                            Some(Some(VarValue::Float { value: number }))
                        } else {
                            None
                        },
                        None => None,
                    },
                    ComponentPropKind::Text => Some(Some(VarValue::Text { value: text })),
                    ComponentPropKind::Color => match color {
                        Some(color) => Some(Some(VarValue::Color { value: color })),
                        None => None,
                    },
                    _ => None,
                },
                PropInput::Other => None,
            }
        },
        None => None,
    }
}

pub fn component_prop_value(kind: Option<ComponentPropKind>, input: &PropInput) -> (r: Option<
    Option<VarValue>,
>)
    ensures
        r == prop_value_of(kind, *input),
{
    let kind = match kind {
        Some(ComponentPropKind::InstanceSwap) => {
            return None;
        },
        Some(ComponentPropKind::Variant) => {
            return None;
        },
        Some(kind) => kind,
        None => {
            return None;
        },
    };
    match input {
        PropInput::Reset => Some(None),
        PropInput::Boolean(value) => if kind == ComponentPropKind::Bool {
            Some(Some(VarValue::Boolean { value: *value }))
        } else {
            None
        },
        PropInput::Text { text, number, color } => match kind {
            ComponentPropKind::Number => match number {
                Some(number) => if number.is_finite() {
                    Some(Some(VarValue::Float { value: *number }))
                } else {
                    None
                },
                None => None,
            },
            ComponentPropKind::Text => Some(Some(VarValue::Text { value: text.clone() })),
            ComponentPropKind::Color => match color {
                Some(color) => Some(Some(VarValue::Color { value: *color })),
                None => None,
            },
            _ => None,
        },
        PropInput::Other => None,
    }
}

/// The part of a layer that a variable can drive.
pub open spec fn bound_prop_of(property: DesignProperty) -> Option<BoundProp> {
    match property {
        DesignProperty::Opacity => Some(BoundProp::Opacity),
        DesignProperty::Visible => Some(BoundProp::Visible),
        DesignProperty::CornerRadius => Some(BoundProp::CornerRadius),
        _ => None,
    }
}

pub fn detached_prop(property: DesignProperty) -> (prop: Option<BoundProp>)
    ensures
        prop == bound_prop_of(property),
{
    match property {
        DesignProperty::Opacity => Some(BoundProp::Opacity),
        DesignProperty::Visible => Some(BoundProp::Visible),
        DesignProperty::CornerRadius => Some(BoundProp::CornerRadius),
        _ => None,
    }
}

// ---------------------------------------------------------------------------
// Pages
// ---------------------------------------------------------------------------

/// A page gets a plain background, unless it has it; what is no group has none.
pub open spec fn background_outcome(
    doc: Doc,
    root: NodeId,
    color: Color,
    operations: Seq<Operation>,
) -> bool {
    match crate::scene::find(doc.nodes@, root) {
        Some(node) => match *node.data {
            NodeData::Group(group) => crate::design_data::renews(
                operations,
                node,
                NodeData::Group(
                    GroupNode {
                        background: Some(Fill::Solid { color: color, blend: BlendMode::Normal }),
                        ..group
                    },
                ),
            ),
            _ => operations.len() == 0,
        },
        None => operations.len() == 0,
    }
}

pub fn page_background_operations(doc: &Doc, root: NodeId, color: Color) -> (operations: Vec<
    Operation,
>)
    ensures
        background_outcome(*doc, root, color, operations@),
{
    if let Some(node) = doc.get(root) {
        if let NodeData::Group(group) = &*node.data {
            let changed = GroupNode {
                background: Some(Fill::Solid { color, blend: BlendMode::Normal }),
                ..group.copy()
            };
            return renew(node, NodeData::Group(changed));
        }
    }
    Vec::new()
}

} // verus!
