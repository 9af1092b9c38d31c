//! Effects of a layer in the inspector: shadows first, then blurs, each known
//! by an id that names the list it stands in.

use std::sync::Arc;

use vstd::prelude::*;
use vstd::string::*;

use crate::document::{Blur, BlurKind, CanvasNode, Doc, Shadow, ShadowKind};
use crate::ids::NodeId;
use crate::operations::Operation;
use crate::paint::{share, Color};
use crate::scalar::Scalar;
use crate::text::{numbered, parse_usize, strip_prefix};

verus! {

#[derive(Clone, Copy, Debug, PartialEq, Eq, Structural)]
pub enum EffectKind {
    DropShadow,
    InnerShadow,
    LayerBlur,
    BackgroundBlur,
    /// A kind that documents do not keep.
    Unsupported,
}

/// An effect as the inspector shows it. A blur has no color, spread or offset.
#[derive(Debug, PartialEq)]
pub struct DesignEffect {
    pub id: String,
    pub kind: EffectKind,
    pub radius: Scalar,
    pub shadow: Option<ShadowSettings>,
}

#[derive(Clone, Copy, Debug, PartialEq, Eq, Structural)]
pub struct ShadowSettings {
    pub color: Color,
    pub spread: Scalar,
    pub offset_x: Scalar,
    pub offset_y: Scalar,
    /// Drop shadows only.
    pub show_behind_node: bool,
}

// ---------------------------------------------------------------------------
// Ids
// ---------------------------------------------------------------------------

/// Which list of the layer an effect stands in, and where.
#[derive(Clone, Copy, Debug, PartialEq, Eq, Structural)]
pub enum EffectRef {
    Shadow(usize),
    Blur(usize),
}

/// The id of an effect.
pub open spec fn effect_id(reference: EffectRef) -> Seq<char> {
    match reference {
        EffectRef::Shadow(index) => "shadow-"@ + crate::text::decimal(index as nat),
        EffectRef::Blur(index) => "blur-"@ + crate::text::decimal(index as nat),
    }
}

/// What an id names.
pub open spec fn effect_named(id: Seq<char>) -> Option<EffectRef> {
    if "shadow-"@.is_prefix_of(id) {
        match crate::text::parsed_usize(id.skip("shadow-"@.len() as int)) {
            Some(index) => Some(EffectRef::Shadow(index)),
            None => None,
        }
    } else if "blur-"@.is_prefix_of(id) {
        match crate::text::parsed_usize(id.skip("blur-"@.len() as int)) {
            Some(index) => Some(EffectRef::Blur(index)),
            None => None,
        }
    } else {
        None
    }
}

pub fn effect_ref(effect_id: &str) -> (reference: Option<EffectRef>)
    ensures
        reference == effect_named(effect_id@),
{
    if let Some(index) = strip_prefix(effect_id, "shadow-") {
        proof {
            assert(effect_id@.skip("shadow-"@.len() as int) =~= index@);
            assert("shadow-"@.is_prefix_of(effect_id@));
        }
        return match parse_usize(index.as_str()) {
            Some(index) => Some(EffectRef::Shadow(index)),
            None => None,
        };
    }
    if let Some(index) = strip_prefix(effect_id, "blur-") {
        proof {
            assert(effect_id@.skip("blur-"@.len() as int) =~= index@);
            assert("blur-"@.is_prefix_of(effect_id@));
        }
        return match parse_usize(index.as_str()) {
            Some(index) => Some(EffectRef::Blur(index)),
            None => None,
        };
    }
    None
}

/// An id leads back to the effect it was made for.
pub proof fn lemma_effect_id_round_trip(reference: EffectRef)
    ensures
        effect_named(effect_id(reference)) == Some(reference),
{
    let shadow = "shadow-"@;
    let blur = "blur-"@;
    reveal_strlit("shadow-");
    reveal_strlit("blur-");
    match reference {
        EffectRef::Shadow(index) => {
            let digits = crate::text::decimal(index as nat);
            crate::text::lemma_decimal_parses(index);
            assert((shadow + digits).skip(shadow.len() as int) =~= digits);
            assert(shadow.is_prefix_of(shadow + digits));
        },
        EffectRef::Blur(index) => {
            let digits = crate::text::decimal(index as nat);
            crate::text::lemma_decimal_parses(index);
            assert((blur + digits).skip(blur.len() as int) =~= digits);
            assert(blur.is_prefix_of(blur + digits));
            assert((blur + digits)[0] == 'b');
            if shadow.is_prefix_of(blur + digits) {
                assert(shadow[0] == (blur + digits)[0]);
            }
        },
    }
}

/// Different effects have different ids.
pub proof fn lemma_effect_ids_differ(a: EffectRef, b: EffectRef)
    requires
        effect_id(a) == effect_id(b),
    ensures
        a == b,
{
    lemma_effect_id_round_trip(a);
    lemma_effect_id_round_trip(b);
}

// ---------------------------------------------------------------------------
// Rows
// ---------------------------------------------------------------------------

pub open spec fn shows_shadow(effect: DesignEffect, shadow: Shadow, index: usize) -> bool {
    &&& effect.id@ == effect_id(EffectRef::Shadow(index))
    &&& effect.kind == (match shadow.kind {
        ShadowKind::Drop => EffectKind::DropShadow,
        ShadowKind::Inner => EffectKind::InnerShadow,
    })
    &&& effect.radius == shadow.blur
    &&& effect.shadow == Some(
        ShadowSettings {
            color: shadow.color,
            spread: shadow.spread,
            offset_x: shadow.offset_x,
            offset_y: shadow.offset_y,
            show_behind_node: shadow.kind is Drop && shadow.show_behind_node,
        },
    )
}

pub open spec fn shows_blur(effect: DesignEffect, blur: Blur, index: usize) -> bool {
    &&& effect.id@ == effect_id(EffectRef::Blur(index))
    &&& effect.kind == (match blur.kind {
        BlurKind::Layer => EffectKind::LayerBlur,
        BlurKind::Background => EffectKind::BackgroundBlur,
    })
    &&& effect.radius == blur.radius
    &&& effect.shadow is None
}

/// The rows of a layer's effects: its shadows, then its blurs.
pub open spec fn effect_rows(effects: Seq<DesignEffect>, node: CanvasNode) -> bool {
    let shadows = node.effects@;
    let blurs = node.blurs@;
    &&& effects.len() == shadows.len() + blurs.len()
    &&& forall|i: int|
        0 <= i < shadows.len() ==> shows_shadow(effects[i], #[trigger] shadows[i], i as usize)
    &&& forall|i: int|
        0 <= i < blurs.len() ==> shows_blur(
            effects[shadows.len() + i],
            #[trigger] blurs[i],
            i as usize,
        )
}

pub fn design_effects(node: &CanvasNode) -> (effects: Vec<DesignEffect>)
    ensures
        effect_rows(effects@, *node),
{
    let ghost shadows = node.effects@;
    let ghost blurs = node.blurs@;
    let mut effects: Vec<DesignEffect> = Vec::new();
    let mut i: usize = 0;
    while i < node.effects.len()
        invariant
            shadows == node.effects@,
            i <= shadows.len(),
            effects@.len() == i,
            forall|k: int|
                0 <= k < i ==> shows_shadow(effects@[k], #[trigger] shadows[k], k as usize),
        decreases shadows.len() - i,
    {
        let shadow = node.effects[i];
        let ghost before = effects@;
        let (kind, behind) = match shadow.kind {
            ShadowKind::Drop => (EffectKind::DropShadow, shadow.show_behind_node),
            ShadowKind::Inner => (EffectKind::InnerShadow, false),
        };
        effects.push(
            DesignEffect {
                id: numbered("shadow-", i),
                kind,
                radius: shadow.blur,
                shadow: Some(
                    ShadowSettings {
                        color: shadow.color,
                        spread: shadow.spread,
                        offset_x: shadow.offset_x,
                        offset_y: shadow.offset_y,
                        show_behind_node: behind,
                    },
                ),
            },
        );
        proof {
            assert forall|k: int| 0 <= k < i + 1 implies shows_shadow(
                effects@[k],
                #[trigger] shadows[k],
                k as usize,
            ) by {
                if k < i {
                    assert(effects@[k] == before[k]);
                }
            }
        }
        i = i + 1;
    }
    let ghost head = effects@;
    let mut j: usize = 0;
    while j < node.blurs.len()
        invariant
            blurs == node.blurs@,
            j <= blurs.len(),
            head.len() == shadows.len(),
            effects@.len() == shadows.len() + j,
            effects@.take(head.len() as int) == head,
            forall|k: int|
                0 <= k < j ==> shows_blur(
                    effects@[shadows.len() + k],
                    #[trigger] blurs[k],
                    k as usize,
                ),
        decreases blurs.len() - j,
    {
        let blur = node.blurs[j];
        let ghost before = effects@;
        let kind = match blur.kind {
            BlurKind::Layer => EffectKind::LayerBlur,
            BlurKind::Background => EffectKind::BackgroundBlur,
        };
        effects.push(
            DesignEffect { id: numbered("blur-", j), kind, radius: blur.radius, shadow: None },
        );
        proof {
            assert(effects@.take(head.len() as int) =~= head);
            assert forall|k: int| 0 <= k < j + 1 implies shows_blur(
                effects@[shadows.len() + k],
                #[trigger] blurs[k],
                k as usize,
            ) by {
                if k < j {
                    assert(effects@[shadows.len() + k] == before[shadows.len() + k]);
                }
            }
        }
        j = j + 1;
    }
    proof {
        assert forall|k: int| 0 <= k < shadows.len() implies shows_shadow(
            effects@[k],
            #[trigger] shadows[k],
            k as usize,
        ) by {
            assert(effects@.take(head.len() as int)[k] == head[k]);
        }
    }
    effects
}

// ---------------------------------------------------------------------------
// Edits
// ---------------------------------------------------------------------------

/// Properties of an effect. Some go by an older name as well.
#[derive(Clone, Copy, Debug, PartialEq, Eq, Structural)]
pub enum EffectProperty {
    ShadowColor,
    ShadowBlur,
    ShadowSpread,
    ShadowOffsetX,
    ShadowOffsetY,
    ShowBehindNode,
    BlurRadius,
    Blur,
    Spread,
    OffsetX,
    OffsetY,
    Kind,
    Unwired,
}

#[derive(Clone, Copy, Debug, PartialEq, Eq, Structural)]
pub enum EffectValue {
    Number(Scalar),
    Color(Color),
    Bool(bool),
    Kind(EffectKind),
    Other,
}

/// A shadow after one of its properties is set; numbers must be finite.
pub open spec fn shadow_edited(
    shadow: Shadow,
    property: EffectProperty,
    value: EffectValue,
) -> Option<Shadow> {
    match (property, value) {
        (EffectProperty::ShadowColor, EffectValue::Color(color)) => Some(
            Shadow { color: color, ..shadow },
        ),
        (EffectProperty::ShowBehindNode, EffectValue::Bool(show)) => Some(
            Shadow { show_behind_node: show, ..shadow },
        ),
        (_, EffectValue::Number(number)) => if !number.finite() {
            None
        } else {
            match property {
                EffectProperty::ShadowBlur | EffectProperty::Blur => Some(
                    Shadow { blur: number.at_least_zero(), ..shadow },
                ),
                EffectProperty::ShadowSpread | EffectProperty::Spread => Some(
                    Shadow { spread: number, ..shadow },
                ),
                EffectProperty::ShadowOffsetX | EffectProperty::OffsetX => Some(
                    Shadow { offset_x: number, ..shadow },
                ),
                EffectProperty::ShadowOffsetY | EffectProperty::OffsetY => Some(
                    Shadow { offset_y: number, ..shadow },
                ),
                _ => None,
            }
        },
        _ => None,
    }
}

fn edit_shadow(shadow: Shadow, property: EffectProperty, value: EffectValue) -> (r: Option<Shadow>)
    ensures
        r == shadow_edited(shadow, property, value),
{
    match (property, value) {
        (EffectProperty::ShadowColor, EffectValue::Color(color)) => Some(
            Shadow { color, ..shadow },
        ),
        (EffectProperty::ShowBehindNode, EffectValue::Bool(show)) => Some(
            Shadow { show_behind_node: show, ..shadow },
        ),
        (_, EffectValue::Number(number)) => if !number.is_finite() {
            None
        } else {
            match property {
                EffectProperty::ShadowBlur | EffectProperty::Blur => Some(
                    Shadow { blur: number.max_zero(), ..shadow },
                ),
                EffectProperty::ShadowSpread | EffectProperty::Spread => Some(
                    Shadow { spread: number, ..shadow },
                ),
                EffectProperty::ShadowOffsetX | EffectProperty::OffsetX => Some(
                    Shadow { offset_x: number, ..shadow },
                ),
                EffectProperty::ShadowOffsetY | EffectProperty::OffsetY => Some(
                    Shadow { offset_y: number, ..shadow },
                ),
                _ => None,
            }
        },
        _ => None,
    }
}

/// The value can be written to the property of a shadow, whatever the shadow.
pub open spec fn shadow_takes(property: EffectProperty, value: EffectValue) -> bool {
    exists|shadow: Shadow| #[trigger] shadow_edited(shadow, property, value) is Some
}

/// Whether a value is taken does not depend on the shadow.
pub proof fn lemma_shadow_takes(shadow: Shadow, property: EffectProperty, value: EffectValue)
    ensures
        shadow_edited(shadow, property, value) is Some == shadow_takes(property, value),
{
}

/// The operation puts another list in the place of a layer's shadows.
pub open spec fn sets_shadows(operation: Operation, node: CanvasNode, new_list: Seq<Shadow>) -> bool {
    operation matches Operation::SetEffects { id, old, new } && id == node.id && old == node.effects
        && new@ == new_list
}

/// The operation puts another list in the place of a layer's blurs.
pub open spec fn sets_blurs(operation: Operation, node: CanvasNode, new_list: Seq<Blur>) -> bool {
    operation matches Operation::SetBlurs { id, old, new } && id == node.id && old == node.blurs
        && new@ == new_list
}

pub(crate) fn set_shadows(node: &CanvasNode, shadows: Vec<Shadow>) -> (operation: Operation)
    ensures
        sets_shadows(operation, *node, shadows@),
{
    Operation::SetEffects { id: node.id, old: share(&node.effects), new: Arc::new(shadows) }
}

pub(crate) fn set_blurs(node: &CanvasNode, blurs: Vec<Blur>) -> (operation: Operation)
    ensures
        sets_blurs(operation, *node, blurs@),
{
    Operation::SetBlurs { id: node.id, old: share(&node.blurs), new: Arc::new(blurs) }
}

pub(crate) fn copy_shadows(list: &Vec<Shadow>) -> (copy: Vec<Shadow>)
    ensures
        copy@ == list@,
{
    let mut copy: Vec<Shadow> = Vec::new();
    let mut i: usize = 0;
    while i < list.len()
        invariant
            i <= list@.len(),
            copy@ == list@.take(i as int),
        decreases list@.len() - i,
    {
        copy.push(list[i]);
        assert(copy@ =~= list@.take(i + 1));
        i = i + 1;
    }
    assert(list@.take(list@.len() as int) =~= list@);
    copy
}

pub(crate) fn copy_blurs(list: &Vec<Blur>) -> (copy: Vec<Blur>)
    ensures
        copy@ == list@,
{
    let mut copy: Vec<Blur> = Vec::new();
    let mut i: usize = 0;
    while i < list.len()
        invariant
            i <= list@.len(),
            copy@ == list@.take(i as int),
        decreases list@.len() - i,
    {
        copy.push(list[i]);
        assert(copy@ =~= list@.take(i + 1));
        i = i + 1;
    }
    assert(list@.take(list@.len() as int) =~= list@);
    copy
}

/// One shadow of a layer is replaced; where there is none at the place, nothing
/// happens.
pub open spec fn replaces_shadow(
    operations: Seq<Operation>,
    doc: Doc,
    id: NodeId,
    index: usize,
    change: spec_fn(Shadow) -> Shadow,
) -> bool {
    match crate::scene::find(doc.nodes@, id) {
        Some(node) => if index < node.effects@.len() {
            operations.len() == 1 && sets_shadows(
                operations[0],
                node,
                node.effects@.update(index as int, change(node.effects@[index as int])),
            )
        } else {
            operations.len() == 0
        },
        None => operations.len() == 0,
    }
}

/// One blur of a layer is replaced; where there is none at the place, nothing
/// happens.
pub open spec fn replaces_blur(
    operations: Seq<Operation>,
    doc: Doc,
    id: NodeId,
    index: usize,
    change: spec_fn(Blur) -> Blur,
) -> bool {
    match crate::scene::find(doc.nodes@, id) {
        Some(node) => if index < node.blurs@.len() {
            operations.len() == 1 && sets_blurs(
                operations[0],
                node,
                node.blurs@.update(index as int, change(node.blurs@[index as int])),
            )
        } else {
            operations.len() == 0
        },
        None => operations.len() == 0,
    }
}

/// What an edit of an effect's property does. No result means that the property
/// or the value is not wired.
pub open spec fn effect_edit_outcome(
    doc: Doc,
    id: NodeId,
    reference: EffectRef,
    property: EffectProperty,
    value: EffectValue,
    default_shadow: Shadow,
    r: Option<Vec<Operation>>,
) -> bool {
    if property is Kind {
        match value {
            EffectValue::Kind(kind) => kind_change_outcome(
                doc,
                id,
                reference,
                kind,
                default_shadow,
                r,
            ),
            _ => r is None,
        }
    } else {
        match reference {
            EffectRef::Shadow(index) => if shadow_takes(property, value) {
                r matches Some(operations) && replaces_shadow(
                    operations@,
                    doc,
                    id,
                    index,
                    |shadow: Shadow| shadow_edited(shadow, property, value)->0,
                )
            } else {
                r is None
            },
            EffectRef::Blur(index) => if (property is BlurRadius || property is Blur) && (
            value matches EffectValue::Number(radius) && radius.finite()) {
                r matches Some(operations) && replaces_blur(
                    operations@,
                    doc,
                    id,
                    index,
                    |blur: Blur| Blur { radius: value->Number_0.at_least_zero(), ..blur },
                )
            } else {
                r is None
            },
        }
    }
}

/// Another kind of shadow or of blur stays in its list. A shadow that becomes a
/// blur, or the other way round, leaves its list and joins the end of the other
/// one, with its radius.
pub open spec fn kind_change_outcome(
    doc: Doc,
    id: NodeId,
    reference: EffectRef,
    kind: EffectKind,
    default_shadow: Shadow,
    r: Option<Vec<Operation>>,
) -> bool {
    match crate::scene::find(doc.nodes@, id) {
        None => r is None,
        Some(node) => match (reference, kind) {
            (EffectRef::Shadow(index), EffectKind::DropShadow | EffectKind::InnerShadow) =>
                r matches Some(operations) && replaces_shadow(
                    operations@,
                    doc,
                    id,
                    index,
                    |shadow: Shadow| Shadow { kind: shadow_kind_of(kind), ..shadow },
                ),
            (EffectRef::Blur(index), EffectKind::LayerBlur | EffectKind::BackgroundBlur) =>
                r matches Some(operations) && replaces_blur(
                    operations@,
                    doc,
                    id,
                    index,
                    |blur: Blur| Blur { kind: blur_kind_of(kind), ..blur },
                ),
            (EffectRef::Shadow(index), EffectKind::LayerBlur | EffectKind::BackgroundBlur) =>
                if index < node.effects@.len() {
                    r matches Some(operations) && operations@.len() == 2 && sets_shadows(
                        operations@[0],
                        node,
                        node.effects@.remove(index as int),
                    ) && sets_blurs(
                        operations@[1],
                        node,
                        node.blurs@.push(
                            Blur {
                                kind: blur_kind_of(kind),
                                radius: node.effects@[index as int].blur,
                            },
                        ),
                    )
                } else {
                    r is None
                },
            (EffectRef::Blur(index), EffectKind::DropShadow | EffectKind::InnerShadow) =>
                if index < node.blurs@.len() {
                    r matches Some(operations) && operations@.len() == 2 && sets_blurs(
                        operations@[0],
                        node,
                        node.blurs@.remove(index as int),
                    ) && sets_shadows(
                        operations@[1],
                        node,
                        node.effects@.push(
                            Shadow {
                                kind: shadow_kind_of(kind),
                                blur: node.blurs@[index as int].radius,
                                ..default_shadow
                            },
                        ),
                    )
                } else {
                    r is None
                },
            _ => r is None,
        },
    }
}

pub open spec fn shadow_kind_of(kind: EffectKind) -> ShadowKind {
    if kind is DropShadow {
        ShadowKind::Drop
    } else {
        ShadowKind::Inner
    }
}

pub open spec fn blur_kind_of(kind: EffectKind) -> BlurKind {
    if kind is LayerBlur {
        BlurKind::Layer
    } else {
        BlurKind::Background
    }
}

fn replace_shadow(node: &CanvasNode, index: usize, shadow: Shadow) -> (operations: Vec<Operation>)
    requires
        index < node.effects@.len(),
    ensures
        operations@.len() == 1,
        sets_shadows(operations@[0], *node, node.effects@.update(index as int, shadow)),
{
    let mut shadows = copy_shadows(&node.effects);
    shadows.set(index, shadow);
    let mut operations: Vec<Operation> = Vec::new();
    operations.push(set_shadows(node, shadows));
    operations
}

fn replace_blur(node: &CanvasNode, index: usize, blur: Blur) -> (operations: Vec<Operation>)
    requires
        index < node.blurs@.len(),
    ensures
        operations@.len() == 1,
        sets_blurs(operations@[0], *node, node.blurs@.update(index as int, blur)),
{
    let mut blurs = copy_blurs(&node.blurs);
    blurs.set(index, blur);
    let mut operations: Vec<Operation> = Vec::new();
    operations.push(set_blurs(node, blurs));
    operations
}

/// Changes the kind of an effect. The two writes of a change of list belong into
/// one transaction.
pub fn effect_kind_change_operations(
    doc: &Doc,
    id: NodeId,
    reference: EffectRef,
    kind: EffectKind,
    default_shadow: Shadow,
) -> (r: Option<Vec<Operation>>)
    ensures
        kind_change_outcome(*doc, id, reference, kind, default_shadow, r),
{
    let node = match doc.get(id) {
        None => {
            return None;
        },
        Some(node) => node,
    };
    let shadow_kind = match kind {
        EffectKind::DropShadow => ShadowKind::Drop,
        _ => ShadowKind::Inner,
    };
    let blur_kind = match kind {
        EffectKind::LayerBlur => BlurKind::Layer,
        _ => BlurKind::Background,
    };
    match (reference, kind) {
        (EffectRef::Shadow(index), EffectKind::DropShadow | EffectKind::InnerShadow) => {
            if index < node.effects.len() {
                Some(
                    replace_shadow(
                        node,
                        index,
                        Shadow { kind: shadow_kind, ..node.effects[index] },
                    ),
                )
            } else {
                Some(Vec::new())
            }
        },
        (EffectRef::Blur(index), EffectKind::LayerBlur | EffectKind::BackgroundBlur) => {
            if index < node.blurs.len() {
                Some(replace_blur(node, index, Blur { kind: blur_kind, ..node.blurs[index] }))
            } else {
                Some(Vec::new())
            }
        },
        (EffectRef::Shadow(index), EffectKind::LayerBlur | EffectKind::BackgroundBlur) => {
            if index >= node.effects.len() {
                return None;
            }
            let radius = node.effects[index].blur;
            let mut shadows = copy_shadows(&node.effects);
            let _removed = shadows.remove(index);
            let mut blurs = copy_blurs(&node.blurs);
            blurs.push(Blur { kind: blur_kind, radius });
            let mut operations: Vec<Operation> = Vec::new();
            operations.push(set_shadows(node, shadows));
            operations.push(set_blurs(node, blurs));
            Some(operations)
        },
        (EffectRef::Blur(index), EffectKind::DropShadow | EffectKind::InnerShadow) => {
            if index >= node.blurs.len() {
                return None;
            }
            let radius = node.blurs[index].radius;
            let mut blurs = copy_blurs(&node.blurs);
            let _removed = blurs.remove(index);
            let mut shadows = copy_shadows(&node.effects);
            shadows.push(Shadow { kind: shadow_kind, blur: radius, ..default_shadow });
            let mut operations: Vec<Operation> = Vec::new();
            operations.push(set_blurs(node, blurs));
            operations.push(set_shadows(node, shadows));
            Some(operations)
        },
        _ => None,
    }
}

/// The operations for an edit of an effect's property.
pub fn effect_edit_operations(
    doc: &Doc,
    id: NodeId,
    reference: EffectRef,
    property: EffectProperty,
    value: EffectValue,
    default_shadow: Shadow,
) -> (r: Option<Vec<Operation>>)
    ensures
        effect_edit_outcome(*doc, id, reference, property, value, default_shadow, r),
{
    if let EffectProperty::Kind = property {
        return match value {
            EffectValue::Kind(kind) => effect_kind_change_operations(
                doc,
                id,
                reference,
                kind,
                default_shadow,
            ),
            _ => None,
        };
    }
    match reference {
        EffectRef::Shadow(index) => {
            proof {
                lemma_shadow_takes(default_shadow, property, value);
            }
            if edit_shadow(default_shadow, property, value).is_none() {
                return None;
            }
            if let Some(node) = doc.get(id) {
                if index < node.effects.len() {
                    proof {
                        lemma_shadow_takes(node.effects@[index as int], property, value);
                    }
                    if let Some(shadow) = edit_shadow(node.effects[index], property, value) {
                        return Some(replace_shadow(node, index, shadow));
                    }
                }
            }
            Some(Vec::new())
        },
        EffectRef::Blur(index) => match (property, value) {
            (
                EffectProperty::BlurRadius | EffectProperty::Blur,
                EffectValue::Number(radius),
            ) => {
                if !radius.is_finite() {
                    return None;
                }
                if let Some(node) = doc.get(id) {
                    if index < node.blurs.len() {
                        return Some(
                            replace_blur(
                                node,
                                index,
                                Blur { radius: radius.max_zero(), ..node.blurs[index] },
                            ),
                        );
                    }
                }
                Some(Vec::new())
            },
            _ => None,
        },
    }
}

// ---------------------------------------------------------------------------
// Laws
// ---------------------------------------------------------------------------

/// A number that is not finite is never written to an effect.
pub proof fn lemma_effect_numbers_finite(
    doc: Doc,
    id: NodeId,
    reference: EffectRef,
    property: EffectProperty,
    number: Scalar,
    default_shadow: Shadow,
    r: Option<Vec<Operation>>,
)
    requires
        effect_edit_outcome(
            doc,
            id,
            reference,
            property,
            EffectValue::Number(number),
            default_shadow,
            r,
        ),
        !number.finite(),
    ensures
        r is None,
{
}

/// A change of kind keeps the number of effects.
pub proof fn lemma_kind_change_keeps_count(
    doc: Doc,
    id: NodeId,
    reference: EffectRef,
    kind: EffectKind,
    default_shadow: Shadow,
    operations: Vec<Operation>,
)
    requires
        doc.well_formed(),
        kind_change_outcome(doc, id, reference, kind, default_shadow, Some(operations)),
        crate::scene::find(doc.nodes@, id) is Some,
    ensures
        ({
            let node = crate::scene::find(doc.nodes@, id)->0;
            let after = crate::operations::all_applied(doc.content(), operations@).nodes[id];
            after.effects@.len() + after.blurs@.len() == node.effects@.len() + node.blurs@.len()
        }),
{
    crate::operations::lemma_find_is_content(doc, id);
    crate::operations::lemma_doc_filed(doc);
    reveal_with_fuel(crate::operations::all_applied, 3);
}

} // verus!
