//! What the inspector shows of a selected layer, or of several.

use vstd::prelude::*;
use vstd::string::*;

use crate::design_effects::{design_effects, DesignEffect, EffectKind};
use crate::design_layout_view::{
    design_layout, design_typography, DesignLayout, DesignTypography, LayoutSection,
    TypographySnapshot,
};
use crate::design_paint_view::{
    design_paint_list, design_stroke, name_paint, DesignPaint, DesignStroke, PaintSnapshot,
    ShownOpacity, ShownPayload, TurnFacts,
};
use crate::design_values::{
    design_blend_mode, design_kind, is_container, DesignBlendMode, DesignKind, DesignProperty,
    DesignValue,
};
use crate::document::{
    Binding, BooleanOp, BoundProp, CanvasNode, Doc, LayoutMode, MaskType, NodeData, ParametricShape,
};
use crate::ids::{NodeId, VariableId};
use crate::paint::{BlendMode, Color, Quad};
use crate::scalar::Scalar;

verus! {

// ---------------------------------------------------------------------------
// Blending
// ---------------------------------------------------------------------------

/// A layer that gathers others, blends normally and does not isolate them shows
/// as passing through.
pub open spec fn blend_mode_shown(kind: DesignKind, node: CanvasNode) -> DesignBlendMode {
    if crate::design_values::gathers(kind) && node.blend_mode == BlendMode::Normal
        && !node.flags.isolated_blend {
        DesignBlendMode::PassThrough
    } else {
        crate::design_values::blend_shown(node.blend_mode)
    }
}

pub fn display_blend_mode(kind: DesignKind, node: &CanvasNode) -> (mode: DesignBlendMode)
    ensures
        mode == blend_mode_shown(kind, *node),
{
    if is_container(kind) && node.blend_mode == BlendMode::Normal && !node.flags.isolated_blend {
        DesignBlendMode::PassThrough
    } else {
        design_blend_mode(node.blend_mode)
    }
}

/// A layer once all operations of a list have changed it.
pub open spec fn changed_by(
    node: CanvasNode,
    operations: Seq<crate::operations::Operation>,
) -> CanvasNode
    decreases operations.len(),
{
    if operations.len() == 0 {
        node
    } else {
        crate::operations::changed_node(
            changed_by(node, operations.drop_last()),
            operations.last(),
        )
    }
}

/// The blend mode that is set on a layer that gathers others is the one that it
/// shows afterwards; passing through and the normal mode are told apart.
pub proof fn lemma_blend_set_is_shown(kind: DesignKind, node: CanvasNode, mode: DesignBlendMode)
    requires
        crate::design_values::gathers(kind),
        mode is PassThrough || crate::design_values::stored_blend(mode) is Some,
    ensures
        blend_mode_shown(
            kind,
            changed_by(node, crate::design_properties::blend_operations_of(node, mode)),
        ) == mode,
{
    let operations = crate::design_properties::blend_operations_of(node, mode);
    reveal_with_fuel(changed_by, 3);
    if !(mode is PassThrough) {
        let stored = crate::design_values::stored_blend(mode)->0;
        assert(crate::design_values::blend_shown(stored) == mode);
    }
    if operations.len() == 2 {
        assert(operations.drop_last().drop_last() =~= Seq::empty());
    } else if operations.len() == 1 {
        assert(operations.drop_last() =~= Seq::empty());
    }
}

// ---------------------------------------------------------------------------
// The layout above
// ---------------------------------------------------------------------------

#[derive(Clone, Copy, Debug, PartialEq, Eq, Structural)]
pub enum ParentLayout {
    Canvas,
    Freeform,
    Auto { direction: LayoutMode, wraps: bool, in_flow: bool },
    Mixed,
}

/// What a layer lies in.
pub open spec fn parent_layout_of(doc: Doc, id: NodeId) -> ParentLayout {
    match crate::scene::find(doc.nodes@, id) {
        None => ParentLayout::Canvas,
        Some(node) => match node.parent {
            None => ParentLayout::Canvas,
            Some(parent) => match crate::scene::find(doc.nodes@, parent) {
                None => ParentLayout::Canvas,
                Some(above) => match crate::design_layout_view::own_layout(*above.data) {
                    None => ParentLayout::Freeform,
                    Some(layout) => ParentLayout::Auto {
                        direction: layout.mode,
                        wraps: layout.wrap,
                        in_flow: !(node.layout_child matches Some(child) && child.absolute),
                    },
                },
            },
        },
    }
}

pub fn parent_layout_for(doc: &Doc, id: NodeId) -> (layout: ParentLayout)
    ensures
        layout == parent_layout_of(*doc, id),
{
    let node = match doc.get(id) {
        Some(node) => node,
        None => {
            return ParentLayout::Canvas;
        },
    };
    let parent = match node.parent {
        Some(parent) => parent,
        None => {
            return ParentLayout::Canvas;
        },
    };
    let above = match doc.get(parent) {
        Some(above) => above,
        None => {
            return ParentLayout::Canvas;
        },
    };
    let layout = match &*above.data {
        NodeData::Group(group) => group.auto_layout,
        _ => None,
    };
    match layout {
        Some(layout) => ParentLayout::Auto {
            direction: layout.mode,
            wraps: layout.wrap,
            in_flow: match node.layout_child {
                Some(child) => !child.absolute,
                None => true,
            },
        },
        None => ParentLayout::Freeform,
    }
}

// ---------------------------------------------------------------------------
// Capabilities
// ---------------------------------------------------------------------------

#[derive(Clone, Copy, Debug, PartialEq, Eq, Structural)]
pub enum PanelSection {
    Position,
    Layout,
    LayoutGrid,
    Layer,
    Selection,
    Mask,
    Fill,
    Stroke,
    /// A section that the gates below leave alone.
    Other(u32),
}

/// Which controls the inspector offers.
#[derive(Clone, Copy, Debug, PartialEq, Eq, Structural)]
pub struct CapabilityFlags {
    pub aspect_ratio_lock: bool,
    pub constraints: bool,
    pub arrange: bool,
    pub transforms: bool,
    pub resize_to_fit: bool,
    pub add_auto_layout: bool,
    pub auto_layout_container: bool,
    pub grid_auto_layout: bool,
    pub layout_guides: bool,
    pub pass_through_blend: bool,
    pub clip_content: bool,
    pub fill: bool,
    pub stroke: bool,
    pub effects: bool,
    pub layer_appearance: bool,
    pub visibility: bool,
}

#[derive(Debug, PartialEq)]
pub struct Capabilities {
    pub sections: Vec<PanelSection>,
    pub flags: CapabilityFlags,
}

/// Sections that stay, given whether the layer can be filled and stroked.
pub open spec fn stays(section: PanelSection, fill: bool, stroke: bool) -> bool {
    match section {
        PanelSection::LayoutGrid => false,
        PanelSection::Selection => false,
        PanelSection::Fill => fill,
        PanelSection::Stroke => stroke,
        _ => true,
    }
}

pub open spec fn kept_sections(sections: Seq<PanelSection>, fill: bool, stroke: bool) -> Seq<
    PanelSection,
>
    decreases sections.len(),
{
    if sections.len() == 0 {
        Seq::empty()
    } else {
        let rest = kept_sections(sections.drop_last(), fill, stroke);
        if stays(sections.last(), fill, stroke) {
            rest.push(sections.last())
        } else {
            rest
        }
    }
}

/// The flags that a kind of layer really has: what is not wired stays off. Of a
/// layer of another kind only its place and its appearance can be edited.
pub open spec fn gated_flags(preset: CapabilityFlags, kind: DesignKind, data: NodeData) ->
    CapabilityFlags {
    let gathers = crate::design_values::gathers(kind);
    let other = kind == DesignKind::Other;
    CapabilityFlags {
        aspect_ratio_lock: false,
        constraints: false,
        arrange: false,
        transforms: true,
        resize_to_fit: false,
        add_auto_layout: !other,
        auto_layout_container: gathers,
        grid_auto_layout: false,
        layout_guides: false,
        pass_through_blend: gathers,
        clip_content: gathers,
        fill: preset.fill && !other && (data is Vector || data is Group || data is Text),
        stroke: preset.stroke && !other && (data is Vector || data is Group),
        effects: preset.effects && !other,
        layer_appearance: preset.layer_appearance || other,
        visibility: preset.visibility || other,
    }
}

/// The sections that a layer really has.
pub open spec fn gated_sections(
    preset: Seq<PanelSection>,
    flags: CapabilityFlags,
    kind: DesignKind,
    is_mask: bool,
) -> Seq<PanelSection> {
    if kind == DesignKind::Other {
        seq![PanelSection::Position, PanelSection::Layer]
    } else {
        let kept = kept_sections(preset, flags.fill, flags.stroke);
        if is_mask && !preset.contains(PanelSection::Mask) {
            kept.push(PanelSection::Mask)
        } else {
            kept
        }
    }
}

/// What a layer can really do, given what its kind can do in general.
pub fn gate_capabilities(
    preset: &Capabilities,
    kind: DesignKind,
    data: &NodeData,
    is_mask: bool,
) -> (r: Capabilities)
    ensures
        r.flags == gated_flags(preset.flags, kind, *data),
        r.sections@ == gated_sections(preset.sections@, r.flags, kind, is_mask),
{
    let gathers = is_container(kind);
    let other = kind == DesignKind::Other;
    let (fillable, strokable) = match data {
        NodeData::Vector(_) => (true, true),
        NodeData::Group(_) => (true, true),
        NodeData::Text(_) => (true, false),
        _ => (false, false),
    };
    let flags = CapabilityFlags {
        aspect_ratio_lock: false,
        constraints: false,
        arrange: false,
        transforms: true,
        resize_to_fit: false,
        add_auto_layout: !other,
        auto_layout_container: gathers,
        grid_auto_layout: false,
        layout_guides: false,
        pass_through_blend: gathers,
        clip_content: gathers,
        fill: preset.flags.fill && !other && fillable,
        stroke: preset.flags.stroke && !other && strokable,
        effects: preset.flags.effects && !other,
        layer_appearance: preset.flags.layer_appearance || other,
        visibility: preset.flags.visibility || other,
    };
    let mut sections: Vec<PanelSection> = Vec::new();
    if other {
        sections.push(PanelSection::Position);
        sections.push(PanelSection::Layer);
        assert(sections@ =~= seq![PanelSection::Position, PanelSection::Layer]);
        return Capabilities { sections, flags };
    }
    let mut masked = false;
    let mut i: usize = 0;
    assert(preset.sections@.take(0) =~= Seq::<PanelSection>::empty());
    while i < preset.sections.len()
        invariant
            i <= preset.sections@.len(),
            sections@ == kept_sections(
                preset.sections@.take(i as int),
                flags.fill,
                flags.stroke,
            ),
            masked == preset.sections@.take(i as int).contains(PanelSection::Mask),
        decreases preset.sections@.len() - i,
    {
        let section = preset.sections[i];
        proof {
            let front = preset.sections@.take(i as int);
            let more = preset.sections@.take(i + 1);
            assert(more.drop_last() =~= front);
            assert(more.last() == section);
            if front.contains(PanelSection::Mask) {
                let k = choose|k: int| 0 <= k < front.len() && front[k] == PanelSection::Mask;
                assert(more[k] == PanelSection::Mask);
            }
            if section == PanelSection::Mask {
                assert(more[i as int] == PanelSection::Mask);
            }
            if more.contains(PanelSection::Mask) && section != PanelSection::Mask {
                let k = choose|k: int| 0 <= k < more.len() && more[k] == PanelSection::Mask;
                assert(front[k] == PanelSection::Mask);
            }
        }
        let stays_here = match section {
            PanelSection::LayoutGrid => false,
            PanelSection::Selection => false,
            PanelSection::Fill => flags.fill,
            PanelSection::Stroke => flags.stroke,
            _ => true,
        };
        if stays_here {
            sections.push(section);
        }
        if section == PanelSection::Mask {
            masked = true;
        }
        i = i + 1;
    }
    assert(preset.sections@.take(preset.sections@.len() as int) =~= preset.sections@);
    if is_mask && !masked {
        sections.push(PanelSection::Mask);
    }
    Capabilities { sections, flags }
}

// ---------------------------------------------------------------------------
// States of properties
// ---------------------------------------------------------------------------

#[derive(Clone, Copy, Debug, PartialEq, Eq, Structural)]
pub enum ReadOnlyReason {
    NoSize,
    FixedComponentProperty,
}

impl ReadOnlyReason {
    pub open spec fn words(self) -> Seq<char> {
        match self {
            ReadOnlyReason::NoSize => "This layer has no size of its own"@,
            ReadOnlyReason::FixedComponentProperty =>
                "This component property cannot be edited here"@,
        }
    }

    pub fn text(self) -> (text: &'static str)
        ensures
            text@ == self.words(),
    {
        match self {
            ReadOnlyReason::NoSize => "This layer has no size of its own",
            ReadOnlyReason::FixedComponentProperty =>
                "This component property cannot be edited here",
        }
    }
}

/// The value behind a variable.
#[derive(Clone, Copy, Debug, PartialEq, Eq, Structural)]
pub enum BoundValue {
    /// An opacity as a fraction.
    Opacity(Scalar),
    Visible(bool),
    Radius(Scalar),
}

#[derive(Debug, PartialEq)]
pub enum StateValue {
    Uniform(DesignValue),
    Mixed,
    Unset,
    /// The name of the variable is missing where the variable is.
    Bound { variable: VariableId, name: Option<String>, resolved: BoundValue },
}

#[derive(Debug, PartialEq)]
pub struct PropertyState {
    pub property: DesignProperty,
    pub value: StateValue,
    pub read_only: Option<ReadOnlyReason>,
}

/// The states of a layer that has no box: its place and size are unset and
/// cannot be edited.
pub open spec fn boxless(has_box: bool) -> Seq<PropertyState> {
    if has_box {
        Seq::empty()
    } else {
        seq![
            PropertyState {
                property: DesignProperty::X,
                value: StateValue::Unset,
                read_only: Some(ReadOnlyReason::NoSize),
            },
            PropertyState {
                property: DesignProperty::Y,
                value: StateValue::Unset,
                read_only: Some(ReadOnlyReason::NoSize),
            },
            PropertyState {
                property: DesignProperty::Width,
                value: StateValue::Unset,
                read_only: Some(ReadOnlyReason::NoSize),
            },
            PropertyState {
                property: DesignProperty::Height,
                value: StateValue::Unset,
                read_only: Some(ReadOnlyReason::NoSize),
            },
        ]
    }
}

fn unset(property: DesignProperty) -> (state: PropertyState)
    ensures
        state == (PropertyState {
            property: property,
            value: StateValue::Unset,
            read_only: Some(ReadOnlyReason::NoSize),
        }),
{
    PropertyState { property, value: StateValue::Unset, read_only: Some(ReadOnlyReason::NoSize) }
}

pub fn boxless_geometry_states(has_box: bool) -> (states: Vec<PropertyState>)
    ensures
        states@ == boxless(has_box),
{
    let mut states: Vec<PropertyState> = Vec::new();
    if !has_box {
        states.push(unset(DesignProperty::X));
        states.push(unset(DesignProperty::Y));
        states.push(unset(DesignProperty::Width));
        states.push(unset(DesignProperty::Height));
    }
    assert(states@ =~= boxless(has_box));
    states
}

/// The name of a variable.
#[derive(Debug, PartialEq)]
pub struct VariableName {
    pub id: VariableId,
    pub name: String,
}

/// The name that a list gives a variable.
pub open spec fn name_of(names: Seq<VariableName>, id: VariableId) -> Option<String>
    decreases names.len(),
{
    if names.len() == 0 {
        None
    } else if names[0].id == id {
        Some(names[0].name)
    } else {
        name_of(names.skip(1), id)
    }
}

fn find_name(names: &Vec<VariableName>, id: VariableId) -> (name: Option<String>)
    ensures
        name == name_of(names@, id),
{
    let mut i: usize = 0;
    assert(names@.skip(0) =~= names@);
    while i < names.len()
        invariant
            i <= names@.len(),
            name_of(names@, id) == name_of(names@.skip(i as int), id),
        decreases names@.len() - i,
    {
        assert(names@.skip(i as int)[0] == names@[i as int]);
        if names[i].id == id {
            return Some(names[i].name.clone());
        }
        assert(names@.skip(i as int).skip(1) =~= names@.skip(i + 1));
        i = i + 1;
    }
    None
}

/// The words for a variable: those for one that is missing where it has no name.
pub fn variable_label(name: &Option<String>) -> (label: String)
    ensures
        label@ == (match *name {
            Some(name) => name@,
            None => "Missing variable"@,
        }),
{
    match name {
        Some(name) => name.clone(),
        None => "Missing variable".to_owned(),
    }
}

/// The state that a binding puts a property in; other bindings show nothing.
pub open spec fn bound_state(node: CanvasNode, binding: Binding, names: Seq<VariableName>) ->
    Option<PropertyState> {
    let name = name_of(names, binding.variable);
    match binding.prop {
        BoundProp::Opacity => Some(
            PropertyState {
                property: DesignProperty::Opacity,
                value: StateValue::Bound {
                    variable: binding.variable,
                    name: name,
                    resolved: BoundValue::Opacity(node.opacity),
                },
                read_only: None,
            },
        ),
        BoundProp::Visible => Some(
            PropertyState {
                property: DesignProperty::Visible,
                value: StateValue::Bound {
                    variable: binding.variable,
                    name: name,
                    resolved: BoundValue::Visible(!node.flags.hidden),
                },
                read_only: None,
            },
        ),
        BoundProp::CornerRadius => Some(
            PropertyState {
                property: DesignProperty::CornerRadius,
                value: StateValue::Bound {
                    variable: binding.variable,
                    name: name,
                    resolved: BoundValue::Radius(Scalar::of(crate::scalar::ZERO)),
                },
                read_only: None,
            },
        ),
        _ => None,
    }
}

pub open spec fn bound_list(
    node: CanvasNode,
    bindings: Seq<Binding>,
    names: Seq<VariableName>,
) -> Seq<PropertyState>
    decreases bindings.len(),
{
    if bindings.len() == 0 {
        Seq::empty()
    } else {
        let rest = bound_list(node, bindings.drop_last(), names);
        match bound_state(node, bindings.last(), names) {
            Some(state) => rest.push(state),
            None => rest,
        }
    }
}

/// The states of the properties of a layer that variables drive.
pub open spec fn bound_states_of(doc: Doc, id: NodeId, names: Seq<VariableName>) -> Seq<
    PropertyState,
> {
    match crate::scene::find(doc.nodes@, id) {
        Some(node) => bound_list(node, node.bindings@, names),
        None => Seq::empty(),
    }
}

pub fn bound_states(doc: &Doc, id: NodeId, names: &Vec<VariableName>) -> (states: Vec<
    PropertyState,
>)
    ensures
        states@ == bound_states_of(*doc, id, names@),
{
    let mut states: Vec<PropertyState> = Vec::new();
    let node = match doc.get(id) {
        Some(node) => node,
        None => {
            return states;
        },
    };
    let bindings = &node.bindings;
    let mut i: usize = 0;
    assert(bindings@.take(0) =~= Seq::<Binding>::empty());
    while i < bindings.len()
        invariant
            i <= bindings@.len(),
            states@ == bound_list(*node, bindings@.take(i as int), names@),
        decreases bindings@.len() - i,
    {
        let binding = bindings[i];
        proof {
            assert(bindings@.take(i + 1).drop_last() =~= bindings@.take(i as int));
            assert(bindings@.take(i + 1).last() == binding);
        }
        let shown = match binding.prop {
            BoundProp::Opacity => Some(
                (DesignProperty::Opacity, BoundValue::Opacity(node.opacity)),
            ),
            BoundProp::Visible => Some(
                (DesignProperty::Visible, BoundValue::Visible(!node.flags.hidden)),
            ),
            BoundProp::CornerRadius => Some(
                (
                    DesignProperty::CornerRadius,
                    BoundValue::Radius(Scalar::of(crate::scalar::ZERO)),
                ),
            ),
            _ => None,
        };
        if let Some((property, resolved)) = shown {
            states.push(
                PropertyState {
                    property,
                    value: StateValue::Bound {
                        variable: binding.variable,
                        name: find_name(names, binding.variable),
                        resolved,
                    },
                    read_only: None,
                },
            );
        }
        i = i + 1;
    }
    assert(bindings@.take(bindings@.len() as int) =~= bindings@);
    states
}

// ---------------------------------------------------------------------------
// A single layer
// ---------------------------------------------------------------------------

#[derive(Clone, Copy, Debug, PartialEq, Eq, Structural)]
pub enum CornerRadiusValue {
    NotApplicable,
    Uniform(Scalar),
    PerCorner(Quad),
}

#[derive(Debug, PartialEq)]
pub enum PropValueSnapshot {
    Bool(bool),
    Text(String),
    Number(Scalar),
    Color(Color),
    /// A value that can be shown only.
    Display(String),
}

#[derive(Debug, PartialEq)]
pub struct PropSnapshot {
    pub id: String,
    pub name: String,
    pub value: PropValueSnapshot,
}

#[derive(Debug, PartialEq)]
pub struct InstanceSection {
    /// The id of the layer that draws the main component, where that is here.
    pub main_root: Option<String>,
    pub component_name: String,
    pub props: Vec<PropSnapshot>,
}

/// The snapshot of a layer that its properties are read from.
#[derive(Debug, PartialEq)]
pub struct NodeSection {
    pub name: String,
    pub visible: bool,
    /// The layer has a box of its own or content with one.
    pub has_box: bool,
    pub x: Scalar,
    pub y: Scalar,
    pub width: Scalar,
    pub height: Scalar,
    pub rotation_degrees: Scalar,
    pub opacity_percent: Scalar,
    pub corner_radius: CornerRadiusValue,
    pub corner_smoothing_percent: Option<Scalar>,
    pub fills: Option<Vec<PaintSnapshot>>,
    pub strokes: Option<Vec<PaintSnapshot>>,
    pub typography: Option<TypographySnapshot>,
    pub layout: Option<LayoutSection>,
    pub layout_child: bool,
    pub instance: Option<InstanceSection>,
    pub fill_turns: Vec<TurnFacts>,
    pub stroke_turns: Vec<TurnFacts>,
}

#[derive(Clone, Copy, Debug, PartialEq, Eq, Structural)]
pub enum ShapeGeometry {
    Plain,
    Polygon { count: u16 },
    Star { count: u16, inner_ratio: Scalar },
    Ellipse { start_rad: Scalar, sweep_rad: Scalar, inner_ratio: Scalar },
    Boolean(BooleanOp),
}

#[derive(Debug, PartialEq)]
pub enum ComponentPropertyValue {
    Bool(bool),
    Text(String),
    Number(Scalar),
    Color(Color),
}

#[derive(Debug, PartialEq)]
pub struct ComponentProperty {
    pub id: String,
    pub name: String,
    pub value: ComponentPropertyValue,
}

#[derive(Debug, PartialEq)]
pub struct ComponentView {
    pub main_root: Option<String>,
    pub component_name: String,
    pub properties: Vec<ComponentProperty>,
}

/// A layer as the inspector shows it.
#[derive(Debug, PartialEq)]
pub struct DesignNode {
    pub id: NodeId,
    pub name: String,
    pub kind: DesignKind,
    pub visible: bool,
    pub x: Scalar,
    pub y: Scalar,
    pub width: Scalar,
    pub height: Scalar,
    pub rotation: Scalar,
    pub opacity_percent: Scalar,
    pub blend: DesignBlendMode,
    pub shape: ShapeGeometry,
    pub corner_radii: Quad,
    pub independent_corners: bool,
    /// Corners can be rounded, all at once or one by one.
    pub rounds_corners: bool,
    pub corner_smoothing_percent: Option<Scalar>,
    pub fills: Vec<DesignPaint>,
    pub stroke: Option<DesignStroke>,
    pub effects: Vec<DesignEffect>,
    pub effect_kinds: Vec<EffectKindOffer>,
    /// Blurs can be progressive.
    pub progressive_blur: bool,
    /// A shadow can have a blend mode of its own.
    pub shadow_blend_mode: bool,
    pub layout: Option<DesignLayout>,
    pub typography: Option<DesignTypography>,
    pub is_mask: bool,
    pub mask_type: MaskType,
    /// The type that a mask is labelled with.
    pub mask_label: Option<MaskType>,
    pub component: Option<ComponentView>,
    pub capabilities: Capabilities,
}

/// Whether an effect of a kind can be added, and the reason why not.
#[derive(Debug, PartialEq)]
pub struct EffectKindOffer {
    pub kind: EffectKind,
    pub unavailable: Option<String>,
}

/// All kinds of effects.
pub open spec fn effect_kinds() -> Seq<EffectKind> {
    seq![
        EffectKind::DropShadow,
        EffectKind::InnerShadow,
        EffectKind::LayerBlur,
        EffectKind::BackgroundBlur,
        EffectKind::Unsupported,
    ]
}

/// An effect is offered where documents keep its kind.
pub open spec fn offers_kind(offer: EffectKindOffer, kind: EffectKind) -> bool {
    offer.kind == kind && match offer.unavailable {
        Some(reason) => kind == EffectKind::Unsupported && reason@
            == "Not supported by this document engine"@,
        None => kind != EffectKind::Unsupported,
    }
}

/// Every kind of effect is listed once, in order.
pub open spec fn kinds_offered(offers: Seq<EffectKindOffer>) -> bool {
    offers.len() == effect_kinds().len() && forall|i: int|
        0 <= i < offers.len() ==> offers_kind(#[trigger] offers[i], effect_kinds()[i])
}

fn offer_kinds() -> (offers: Vec<EffectKindOffer>)
    ensures
        kinds_offered(offers@),
{
    let mut offers: Vec<EffectKindOffer> = Vec::new();
    offers.push(EffectKindOffer { kind: EffectKind::DropShadow, unavailable: None });
    offers.push(EffectKindOffer { kind: EffectKind::InnerShadow, unavailable: None });
    offers.push(EffectKindOffer { kind: EffectKind::LayerBlur, unavailable: None });
    offers.push(EffectKindOffer { kind: EffectKind::BackgroundBlur, unavailable: None });
    offers.push(
        EffectKindOffer {
            kind: EffectKind::Unsupported,
            unavailable: Some("Not supported by this document engine".to_owned()),
        },
    );
    offers
}

pub open spec fn points_shown(points: u32) -> u16 {
    if points < 3 {
        3
    } else if points > 60 {
        60
    } else {
        points as u16
    }
}

fn show_points(points: u32) -> (r: u16)
    ensures
        r == points_shown(points),
{
    if points < 3 {
        3
    } else if points > 60 {
        60
    } else {
        points as u16
    }
}

pub open spec fn geometry_shown(data: NodeData) -> ShapeGeometry {
    match data {
        NodeData::Vector(vector) => match vector.parametric {
            Some(ParametricShape::Polygon { points }) => ShapeGeometry::Polygon {
                count: points_shown(points),
            },
            Some(ParametricShape::Star { points, inner_ratio }) => ShapeGeometry::Star {
                count: points_shown(points),
                inner_ratio: inner_ratio,
            },
            Some(ParametricShape::Arc { start_rad, sweep_rad, inner_ratio }) =>
                ShapeGeometry::Ellipse {
                start_rad: start_rad,
                sweep_rad: sweep_rad,
                inner_ratio: inner_ratio,
            },
            None => ShapeGeometry::Plain,
        },
        NodeData::Boolean(boolean) => ShapeGeometry::Boolean(boolean.op),
        _ => ShapeGeometry::Plain,
    }
}

fn shape_geometry(data: &NodeData) -> (shape: ShapeGeometry)
    ensures
        shape == geometry_shown(*data),
{
    match data {
        NodeData::Vector(vector) => match vector.parametric {
            Some(ParametricShape::Polygon { points }) => ShapeGeometry::Polygon {
                count: show_points(points),
            },
            Some(ParametricShape::Star { points, inner_ratio }) => ShapeGeometry::Star {
                count: show_points(points),
                inner_ratio,
            },
            Some(ParametricShape::Arc { start_rad, sweep_rad, inner_ratio }) =>
                ShapeGeometry::Ellipse { start_rad, sweep_rad, inner_ratio },
            None => ShapeGeometry::Plain,
        },
        NodeData::Boolean(boolean) => ShapeGeometry::Boolean(boolean.op),
        _ => ShapeGeometry::Plain,
    }
}

/// What is shown of a property's value: one that can be shown only is a text.
pub open spec fn prop_value_shown(value: PropValueSnapshot) -> ComponentPropertyValue {
    match value {
        PropValueSnapshot::Bool(value) => ComponentPropertyValue::Bool(value),
        PropValueSnapshot::Text(value) => ComponentPropertyValue::Text(value),
        PropValueSnapshot::Number(value) => ComponentPropertyValue::Number(value),
        PropValueSnapshot::Color(value) => ComponentPropertyValue::Color(value),
        PropValueSnapshot::Display(value) => ComponentPropertyValue::Text(value),
    }
}

pub open spec fn props_shown(props: Seq<PropSnapshot>) -> Seq<ComponentProperty> {
    props.map_values(
        |prop: PropSnapshot|
            ComponentProperty {
                id: prop.id,
                name: prop.name,
                value: prop_value_shown(prop.value),
            },
    )
}

fn show_props(props: &Vec<PropSnapshot>) -> (shown: Vec<ComponentProperty>)
    ensures
        shown@ == props_shown(props@),
{
    let mut shown: Vec<ComponentProperty> = Vec::new();
    let mut i: usize = 0;
    while i < props.len()
        invariant
            i <= props@.len(),
            shown@ == props_shown(props@).take(i as int),
        decreases props@.len() - i,
    {
        let value = match &props[i].value {
            PropValueSnapshot::Bool(value) => ComponentPropertyValue::Bool(*value),
            PropValueSnapshot::Text(value) => ComponentPropertyValue::Text(value.clone()),
            PropValueSnapshot::Number(value) => ComponentPropertyValue::Number(*value),
            PropValueSnapshot::Color(value) => ComponentPropertyValue::Color(*value),
            PropValueSnapshot::Display(value) => ComponentPropertyValue::Text(value.clone()),
        };
        shown.push(
            ComponentProperty { id: props[i].id.clone(), name: props[i].name.clone(), value },
        );
        assert(shown@ =~= props_shown(props@).take(i + 1));
        i = i + 1;
    }
    assert(shown@ =~= props_shown(props@));
    shown
}

/// The states of the properties that can be shown only, by their places.
pub open spec fn fixed_props(props: Seq<PropSnapshot>) -> Seq<PropertyState>
    decreases props.len(),
{
    if props.len() == 0 {
        Seq::empty()
    } else {
        let rest = fixed_props(props.drop_last());
        match props.last().value {
            PropValueSnapshot::Display(value) => rest.push(
                PropertyState {
                    property: DesignProperty::ComponentProperty((props.len() - 1) as usize),
                    value: StateValue::Uniform(DesignValue::Text(value)),
                    read_only: Some(ReadOnlyReason::FixedComponentProperty),
                },
            ),
            _ => rest,
        }
    }
}

/// The states of a single layer: of its box, then of its instance's properties.
pub open spec fn node_states(section: NodeSection) -> Seq<PropertyState> {
    match section.instance {
        Some(instance) => boxless(section.has_box) + fixed_props(instance.props@),
        None => boxless(section.has_box),
    }
}

fn states_for(section: &NodeSection) -> (states: Vec<PropertyState>)
    ensures
        states@ == node_states(*section),
{
    let mut states = boxless_geometry_states(section.has_box);
    if let Some(instance) = &section.instance {
        let props = &instance.props;
        let mut i: usize = 0;
        assert(props@.take(0) =~= Seq::<PropSnapshot>::empty());
        assert(states@ =~= boxless(section.has_box) + fixed_props(props@.take(0)));
        while i < props.len()
            invariant
                i <= props@.len(),
                states@ == boxless(section.has_box) + fixed_props(props@.take(i as int)),
            decreases props@.len() - i,
        {
            let ghost before = states@;
            proof {
                assert(props@.take(i + 1).drop_last() =~= props@.take(i as int));
                assert(props@.take(i + 1).last() == props@[i as int]);
            }
            if let PropValueSnapshot::Display(value) = &props[i].value {
                states.push(
                    PropertyState {
                        property: DesignProperty::ComponentProperty(i),
                        value: StateValue::Uniform(DesignValue::Text(value.clone())),
                        read_only: Some(ReadOnlyReason::FixedComponentProperty),
                    },
                );
            }
            assert(states@ =~= boxless(section.has_box) + fixed_props(props@.take(i + 1)));
            i = i + 1;
        }
        assert(props@.take(props@.len() as int) =~= props@);
    }
    states
}

/// The color of a text shows as its one fill.
pub open spec fn glyph_paint(
    node_text: Seq<char>,
    node: CanvasNode,
    color: Color,
    paint: DesignPaint,
) -> bool {
    &&& paint.id@ == crate::design_paint_view::paint_id(node_text, false, 0)
    &&& paint.payload == ShownPayload::Solid(color)
    &&& paint.opacity == ShownOpacity::Alpha(color.a)
    &&& paint.visible
    &&& paint.blend == crate::design_values::blend_shown(node.blend_mode)
    &&& !paint.read_only
}

/// The fills that are shown: those of the snapshot, or the color of a text.
pub open spec fn fills_shown(
    node_text: Seq<char>,
    node: CanvasNode,
    section: NodeSection,
    fills: Seq<DesignPaint>,
) -> bool {
    match section.fills {
        Some(snapshots) => crate::design_paint_view::paints_shown(
            node_text,
            *node.data,
            false,
            snapshots@,
            section.fill_turns@,
            fills,
        ),
        None => match section.typography {
            Some(typography) => fills.len() == 1 && glyph_paint(
                node_text,
                node,
                typography.color,
                fills[0],
            ),
            None => fills.len() == 0,
        },
    }
}

/// A layer is shown as it is.
pub open spec fn node_shown(
    doc: Doc,
    node: CanvasNode,
    node_text: Seq<char>,
    section: NodeSection,
    preset: Capabilities,
    out: DesignNode,
) -> bool {
    let kind = crate::design_values::design_kind_of(doc, node.id, *node.data);
    &&& out.id == node.id
    &&& out.name == section.name
    &&& out.kind == kind
    &&& out.visible == section.visible
    &&& out.x == section.x
    &&& out.y == section.y
    &&& out.width == section.width
    &&& out.height == section.height
    &&& out.rotation == section.rotation_degrees
    &&& out.opacity_percent == section.opacity_percent
    &&& out.blend == blend_mode_shown(kind, node)
    &&& out.shape == geometry_shown(*node.data)
    &&& out.corner_radii == (match section.corner_radius {
        CornerRadiusValue::NotApplicable => Quad::all(Scalar::of(crate::scalar::ZERO)),
        CornerRadiusValue::Uniform(radius) => Quad::all(radius),
        CornerRadiusValue::PerCorner(radii) => radii,
    })
    &&& out.independent_corners == section.corner_radius is PerCorner
    &&& out.rounds_corners == !(section.corner_radius is NotApplicable)
    &&& out.corner_smoothing_percent == section.corner_smoothing_percent
    &&& fills_shown(node_text, node, section, out.fills@)
    &&& match section.strokes {
        Some(snapshots) => crate::design_paint_view::stroke_shown(
            node_text,
            kind,
            *node.data,
            snapshots@,
            section.stroke_turns@,
            out.stroke,
        ),
        None => out.stroke is None,
    }
    &&& crate::design_effects::effect_rows(out.effects@, node)
    &&& kinds_offered(out.effect_kinds@)
    &&& !out.progressive_blur
    &&& !out.shadow_blend_mode
    &&& out.layout == crate::design_layout_view::layout_shown(
        doc,
        node,
        section.layout,
        section.layout_child,
    )
    &&& match section.typography {
        Some(typography) => out.typography matches Some(shown)
            && crate::design_layout_view::typography_shown(typography, shown),
        None => out.typography is None,
    }
    &&& out.is_mask == node.is_mask
    &&& out.mask_type == node.mask_type
    &&& out.mask_label == (if node.is_mask {
        Some(node.mask_type)
    } else {
        None
    })
    &&& match section.instance {
        Some(instance) => {
            &&& out.component matches Some(shown)
            &&& shown.main_root == instance.main_root
            &&& shown.component_name == instance.component_name
            &&& shown.properties@ == props_shown(instance.props@)
        },
        None => out.component is None,
    }
    &&& out.capabilities.flags == gated_flags(preset.flags, kind, *node.data)
    &&& out.capabilities.sections@ == gated_sections(
        preset.sections@,
        out.capabilities.flags,
        kind,
        node.is_mask,
    )
}

fn shown_fills(node_text: &str, node: &CanvasNode, section: &NodeSection) -> (fills: Vec<
    DesignPaint,
>)
    ensures
        fills_shown(node_text@, *node, *section, fills@),
{
    match &section.fills {
        Some(snapshots) => design_paint_list(
            node_text,
            &node.data,
            false,
            snapshots,
            &section.fill_turns,
        ),
        None => {
            let mut fills: Vec<DesignPaint> = Vec::new();
            if let Some(typography) = &section.typography {
                fills.push(
                    DesignPaint {
                        id: name_paint(node_text, false, 0),
                        payload: ShownPayload::Solid(typography.color),
                        opacity: ShownOpacity::Alpha(typography.color.a),
                        visible: true,
                        blend: design_blend_mode(node.blend_mode),
                        read_only: false,
                    },
                );
            }
            fills
        },
    }
}

/// Everything that the inspector shows of one layer, and the states of its
/// properties; nothing where the layer is gone. `node_text` is the layer's id in
/// words, `section` its snapshot and `preset` what its kind can do in general.
pub fn design_node(
    doc: &Doc,
    id: NodeId,
    node_text: &str,
    section: &NodeSection,
    preset: &Capabilities,
) -> (r: Option<(DesignNode, Vec<PropertyState>)>)
    ensures
        match crate::scene::find(doc.nodes@, id) {
            Some(node) => {
                &&& r matches Some((out, states))
                &&& node_shown(*doc, node, node_text@, *section, *preset, out)
                &&& states@ == node_states(*section)
            },
            None => r is None,
        },
{
    let node = match doc.get(id) {
        Some(node) => node,
        None => {
            return None;
        },
    };
    let kind = design_kind(doc, node.id, &node.data);
    let (corner_radii, independent_corners, rounds_corners) = match section.corner_radius {
        CornerRadiusValue::NotApplicable => (
            Quad::all(Scalar::of(crate::scalar::ZERO)),
            false,
            false,
        ),
        CornerRadiusValue::Uniform(radius) => (Quad::all(radius), false, true),
        CornerRadiusValue::PerCorner(radii) => (radii, true, true),
    };
    let stroke = match &section.strokes {
        Some(snapshots) => design_stroke(
            node_text,
            kind,
            &node.data,
            snapshots,
            &section.stroke_turns,
        ),
        None => None,
    };
    let component = match &section.instance {
        Some(instance) => Some(
            ComponentView {
                main_root: crate::paint::copy_text_option(&instance.main_root),
                component_name: instance.component_name.clone(),
                properties: show_props(&instance.props),
            },
        ),
        None => None,
    };
    let typography = match &section.typography {
        Some(typography) => Some(design_typography(typography)),
        None => None,
    };
    let out = DesignNode {
        id: node.id,
        name: section.name.clone(),
        kind,
        visible: section.visible,
        x: section.x,
        y: section.y,
        width: section.width,
        height: section.height,
        rotation: section.rotation_degrees,
        opacity_percent: section.opacity_percent,
        blend: display_blend_mode(kind, node),
        shape: shape_geometry(&node.data),
        corner_radii,
        independent_corners,
        rounds_corners,
        corner_smoothing_percent: section.corner_smoothing_percent,
        fills: shown_fills(node_text, node, section),
        stroke,
        effects: design_effects(node),
        effect_kinds: offer_kinds(),
        progressive_blur: false,
        shadow_blend_mode: false,
        layout: design_layout(doc, node, section.layout, section.layout_child),
        typography,
        is_mask: node.is_mask,
        mask_type: node.mask_type,
        mask_label: if node.is_mask {
            Some(node.mask_type)
        } else {
            None
        },
        component,
        capabilities: gate_capabilities(preset, kind, &node.data, node.is_mask),
    };
    Some((out, states_for(section)))
}

// ---------------------------------------------------------------------------
// Several layers
// ---------------------------------------------------------------------------

/// A layer of a selection of which only the identity counts.
#[derive(Debug, PartialEq)]
pub struct MemberNode {
    pub id: NodeId,
    pub name: String,
    pub kind: DesignKind,
}

/// A layer that is gone has no name and is of another kind.
pub open spec fn member_shown(doc: Doc, id: NodeId, member: MemberNode) -> bool {
    &&& member.id == id
    &&& match crate::scene::find(doc.nodes@, id) {
        Some(node) => member.name == node.name && member.kind
            == crate::design_values::design_kind_of(doc, id, *node.data),
        None => member.name@.len() == 0 && member.kind == DesignKind::Other,
    }
}

pub fn member_node(doc: &Doc, id: NodeId) -> (member: MemberNode)
    ensures
        member_shown(*doc, id, member),
{
    match doc.get(id) {
        Some(node) => MemberNode {
            id,
            name: node.name.clone(),
            kind: design_kind(doc, id, &node.data),
        },
        None => MemberNode { id, name: String::new(), kind: DesignKind::Other },
    }
}

/// What several layers have in common; a value is missing where they differ.
#[derive(Clone, Copy, Debug, PartialEq, Eq, Structural)]
pub struct MultiSection {
    pub count: usize,
    pub x: Option<Scalar>,
    pub y: Option<Scalar>,
    pub width: Option<Scalar>,
    pub height: Option<Scalar>,
    pub rotation_degrees: Option<Scalar>,
}

/// Several layers as the inspector shows them.
#[derive(Debug, PartialEq)]
pub struct AggregateNode {
    pub id: Option<NodeId>,
    pub name: String,
    pub x: Scalar,
    pub y: Scalar,
    pub width: Scalar,
    pub height: Scalar,
    pub rotation: Scalar,
    pub capabilities: Capabilities,
}

pub open spec fn or_zero(value: Option<Scalar>) -> Scalar {
    match value {
        Some(value) => value,
        None => Scalar::of(crate::scalar::ZERO),
    }
}

fn value_or_zero(value: Option<Scalar>) -> (r: Scalar)
    ensures
        r == or_zero(value),
{
    match value {
        Some(value) => value,
        None => Scalar::of(crate::scalar::ZERO),
    }
}

/// A value that all layers share is uniform, one in which they differ mixed.
pub open spec fn shared_state(property: DesignProperty, value: Option<Scalar>) -> PropertyState {
    PropertyState {
        property: property,
        value: match value {
            Some(value) => StateValue::Uniform(DesignValue::Number(value)),
            None => StateValue::Mixed,
        },
        read_only: None,
    }
}

fn share_state(property: DesignProperty, value: Option<Scalar>) -> (state: PropertyState)
    ensures
        state == shared_state(property, value),
{
    PropertyState {
        property,
        value: match value {
            Some(value) => StateValue::Uniform(DesignValue::Number(value)),
            None => StateValue::Mixed,
        },
        read_only: None,
    }
}

pub open spec fn multi_states(multi: MultiSection) -> Seq<PropertyState> {
    seq![
        shared_state(DesignProperty::X, multi.x),
        shared_state(DesignProperty::Y, multi.y),
        shared_state(DesignProperty::Width, multi.width),
        shared_state(DesignProperty::Height, multi.height),
        shared_state(DesignProperty::Rotation, multi.rotation_degrees),
    ]
}

/// Several layers can be arranged and laid out, but not painted.
pub open spec fn multi_flags(preset: CapabilityFlags) -> CapabilityFlags {
    CapabilityFlags {
        aspect_ratio_lock: false,
        constraints: false,
        arrange: true,
        transforms: true,
        resize_to_fit: false,
        add_auto_layout: true,
        grid_auto_layout: false,
        layout_guides: false,
        pass_through_blend: false,
        fill: false,
        stroke: false,
        effects: false,
        auto_layout_container: false,
        ..preset
    }
}

pub open spec fn aggregate_shown(
    ids: Seq<NodeId>,
    multi: MultiSection,
    preset: CapabilityFlags,
    node: AggregateNode,
) -> bool {
    &&& node.id == (if ids.len() > 0 {
        Some(ids[0])
    } else {
        None
    })
    &&& node.name@ == crate::text::decimal(multi.count as nat) + " selected"@
    &&& node.x == or_zero(multi.x)
    &&& node.y == or_zero(multi.y)
    &&& node.width == or_zero(multi.width)
    &&& node.height == or_zero(multi.height)
    &&& node.rotation == or_zero(multi.rotation_degrees)
    &&& node.capabilities.flags == multi_flags(preset)
    &&& node.capabilities.sections@ == seq![
        PanelSection::Position,
        PanelSection::Layer,
        PanelSection::Layout,
    ]
}

pub fn aggregate_selection(ids: &Vec<NodeId>, multi: &MultiSection, preset: &CapabilityFlags) -> (r:
    (AggregateNode, Vec<PropertyState>))
    ensures
        aggregate_shown(ids@, *multi, *preset, r.0),
        r.1@ == multi_states(*multi),
{
    let mut name = crate::text::decimal_text(multi.count);
    name.append(" selected");
    let mut sections: Vec<PanelSection> = Vec::new();
    sections.push(PanelSection::Position);
    sections.push(PanelSection::Layer);
    sections.push(PanelSection::Layout);
    assert(sections@ =~= seq![
        PanelSection::Position,
        PanelSection::Layer,
        PanelSection::Layout,
    ]);
    let node = AggregateNode {
        id: if ids.len() > 0 {
            Some(ids[0])
        } else {
            None
        },
        name,
        x: value_or_zero(multi.x),
        y: value_or_zero(multi.y),
        width: value_or_zero(multi.width),
        height: value_or_zero(multi.height),
        rotation: value_or_zero(multi.rotation_degrees),
        capabilities: Capabilities {
            sections,
            flags: CapabilityFlags {
                aspect_ratio_lock: false,
                constraints: false,
                arrange: true,
                transforms: true,
                resize_to_fit: false,
                add_auto_layout: true,
                grid_auto_layout: false,
                layout_guides: false,
                pass_through_blend: false,
                fill: false,
                stroke: false,
                effects: false,
                auto_layout_container: false,
                ..*preset
            },
        },
    };
    let mut states: Vec<PropertyState> = Vec::new();
    states.push(share_state(DesignProperty::X, multi.x));
    states.push(share_state(DesignProperty::Y, multi.y));
    states.push(share_state(DesignProperty::Width, multi.width));
    states.push(share_state(DesignProperty::Height, multi.height));
    states.push(share_state(DesignProperty::Rotation, multi.rotation_degrees));
    assert(states@ =~= multi_states(*multi));
    (node, states)
}

/// A layer without a box never shows a number that could be taken for its place
/// or its size: each of the four is unset and cannot be edited.
pub proof fn lemma_boxless_is_unset(section: NodeSection)
    requires
        !section.has_box,
    ensures
        node_states(section).len() >= 4,
        forall|i: int|
            0 <= i < 4 ==> (#[trigger] node_states(section)[i]).value == StateValue::Unset
                && node_states(section)[i].read_only == Some(ReadOnlyReason::NoSize),
        node_states(section)[0].property == DesignProperty::X,
        node_states(section)[1].property == DesignProperty::Y,
        node_states(section)[2].property == DesignProperty::Width,
        node_states(section)[3].property == DesignProperty::Height,
{
}

} // verus!
