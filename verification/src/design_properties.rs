//! What an edit of one property in the inspector does to a layer.
//!
//! Arithmetic on numbers is the host's: it comes in as facts, or goes out as an
//! edit that names the number it starts from.

use std::sync::Arc;

use vstd::prelude::*;
use vstd::string::*;

use crate::design_data::{
    auto_layout_alignment, edit_shape, layout_child_operations, parent_layout,
    replace_data_operation, shape_and_size, ChildEdit, DataEdit, LayoutEdit, ShapeEdit, StrokeEdit,
    StyleEdit, TextEdit,
};
use crate::design_values::{
    engine_blend_mode, number_of, BaselineAlignment, CounterAxisAlignContent, DesignBlendMode,
    DesignLayoutMode, DesignProperty, DesignStrokeCap, DesignValue, ItemSpacingMode,
    LayoutAlignSelf, LayoutPositioning, LetterSpacing, LineHeight, SizingMode, StackingOrder,
    StrokeDashMode, StrokeWeightMode, TextDecoration,
};
use crate::document::{
    AutoLayout, AxisSizing, CanvasNode, Doc, LayoutMode, MaskType, NodeData, NodeFlags,
    ParametricShape, TextNode, TextStyle,
};
use crate::ids::NodeId;
use crate::operations::{extend, Operation};
use crate::paint::{BlendMode, Quad, Size, StrokeCap};
use crate::sameness::Compared;
use crate::scalar::Scalar;

verus! {

/// Fields of the inspector that take a number as text.
#[derive(Clone, Copy, Debug, PartialEq, Eq, Structural)]
pub enum InspectorField {
    X,
    Y,
    Width,
    Height,
    Rotation,
    Opacity,
    CornerRadius,
    CornerSmoothing,
}

/// The number for a field: as it is, a hundred times a ratio, or the degrees of
/// an angle.
#[derive(Clone, Copy, Debug, PartialEq, Eq, Structural)]
pub enum FieldNumber {
    Plain(Scalar),
    Hundredfold(Scalar),
    Degrees(Scalar),
}

/// What an edit of a property asks for.
#[derive(Debug, PartialEq)]
pub enum PropertyEdit {
    Operations(Vec<Operation>),
    Field { field: InspectorField, number: FieldNumber },
    Corner { corner: u8, radius: Scalar },
    /// A changed shape, to be drawn anew in a box of this size.
    Shape { shape: ParametricShape, size: Size },
    ClipContent(bool),
    Gap { gap: Scalar, horizontal: bool },
    Padding { padding: Scalar, horizontal: bool },
    Limit { limit: Option<Scalar>, horizontal: bool, minimum: bool },
}

/// What the host computes for an edit.
#[derive(Clone, Copy, Debug, PartialEq, Eq, Structural)]
pub struct PropertyFacts {
    /// An ending angle less the angle that the arc starts at.
    pub swept: Scalar,
    /// The miter limit of an angle.
    pub miter_limit: Scalar,
    /// A percentage as a fraction.
    pub fraction: Scalar,
    /// Rough size of the layer's outline.
    pub rough_size: Option<Size>,
    /// The size that the layer shows.
    pub shown_size: Option<Size>,
}

// ---------------------------------------------------------------------------
// Fields, corners and shapes
// ---------------------------------------------------------------------------

pub open spec fn field_of(property: DesignProperty) -> Option<InspectorField> {
    match property {
        DesignProperty::X => Some(InspectorField::X),
        DesignProperty::Y => Some(InspectorField::Y),
        DesignProperty::Width => Some(InspectorField::Width),
        DesignProperty::Height => Some(InspectorField::Height),
        DesignProperty::Rotation => Some(InspectorField::Rotation),
        DesignProperty::Opacity => Some(InspectorField::Opacity),
        DesignProperty::CornerRadius => Some(InspectorField::CornerRadius),
        DesignProperty::CornerSmoothing => Some(InspectorField::CornerSmoothing),
        _ => None,
    }
}

/// The number that goes into a field. A rotation may come as an angle, a
/// smoothing as a ratio.
pub open spec fn field_number(field: InspectorField, value: DesignValue) -> Option<FieldNumber> {
    match (field, value) {
        (InspectorField::Rotation, DesignValue::AngleRadians(angle)) => Some(
            FieldNumber::Degrees(angle),
        ),
        (InspectorField::CornerSmoothing, DesignValue::Ratio(ratio)) => Some(
            FieldNumber::Hundredfold(ratio),
        ),
        _ => match crate::design_values::number_in(value) {
            Some(number) => Some(FieldNumber::Plain(number)),
            None => None,
        },
    }
}

fn field_edit(field: InspectorField, value: &DesignValue) -> (edit: Option<PropertyEdit>)
    ensures
        edit == (match field_number(field, *value) {
            Some(number) => Some(PropertyEdit::Field { field: field, number: number }),
            None => None,
        }),
{
    match (field, value) {
        (InspectorField::Rotation, DesignValue::AngleRadians(angle)) => Some(
            PropertyEdit::Field { field, number: FieldNumber::Degrees(*angle) },
        ),
        (InspectorField::CornerSmoothing, DesignValue::Ratio(ratio)) => Some(
            PropertyEdit::Field { field, number: FieldNumber::Hundredfold(*ratio) },
        ),
        _ => match number_of(value) {
            Some(number) => Some(
                PropertyEdit::Field { field, number: FieldNumber::Plain(number) },
            ),
            None => None,
        },
    }
}

/// The corner, clockwise from the top left.
pub open spec fn corner_of(property: DesignProperty) -> Option<u8> {
    match property {
        DesignProperty::CornerRadiusTopLeft => Some(0),
        DesignProperty::CornerRadiusTopRight => Some(1),
        DesignProperty::CornerRadiusBottomRight => Some(2),
        DesignProperty::CornerRadiusBottomLeft => Some(3),
        _ => None,
    }
}

/// The number of points that a value gives a shape: at least three and at most
/// sixty.
pub open spec fn points_in(number: Scalar) -> u32 {
    number.clamped(
        Scalar::of(crate::scalar::THREE),
        Scalar::of(crate::scalar::SIXTY),
    ).whole_part() as u32
}

/// A ratio between nothing and all.
pub open spec fn bounded_ratio(ratio: Scalar) -> Scalar {
    ratio.clamped(Scalar::of(crate::scalar::ZERO), Scalar::of(crate::scalar::ONE))
}

pub open spec fn is_shape_property(property: DesignProperty) -> bool {
    property is PolygonCount || property is StarPointCount || property is StarInnerRadius
        || property is ArcStartingAngle || property is ArcSweep || property is ArcEndingAngle
        || property is ArcInnerRadius
}

/// The edit of a shape. An ending angle sets the sweep.
pub open spec fn shape_edit_of(
    property: DesignProperty,
    value: DesignValue,
    facts: PropertyFacts,
) -> Option<ShapeEdit> {
    match (property, value) {
        (DesignProperty::PolygonCount, _) => match crate::design_values::number_in(value) {
            Some(number) => Some(ShapeEdit::PolygonPoints(points_in(number))),
            None => None,
        },
        (DesignProperty::StarPointCount, _) => match crate::design_values::number_in(value) {
            Some(number) => Some(ShapeEdit::StarPoints(points_in(number))),
            None => None,
        },
        (DesignProperty::StarInnerRadius, DesignValue::Ratio(ratio)) => Some(
            ShapeEdit::StarInner(bounded_ratio(ratio)),
        ),
        (DesignProperty::ArcStartingAngle, DesignValue::AngleRadians(angle)) => Some(
            ShapeEdit::ArcStart(angle),
        ),
        (DesignProperty::ArcSweep, DesignValue::AngleRadians(angle)) => Some(
            ShapeEdit::ArcSweep(angle),
        ),
        (DesignProperty::ArcEndingAngle, DesignValue::AngleRadians(_)) => Some(
            ShapeEdit::ArcSweep(facts.swept),
        ),
        (DesignProperty::ArcInnerRadius, DesignValue::Ratio(ratio)) => Some(
            ShapeEdit::ArcInner(bounded_ratio(ratio)),
        ),
        _ => None,
    }
}

proof fn lemma_clamped_small(number: Scalar, low: u64, high: u64)
    requires
        low < 0x40b0_0000_0000_0000,
        high < 0x40b0_0000_0000_0000,
        low <= high,
    ensures
        ({
            let inside = number.clamped(Scalar::of(low), Scalar::of(high));
            inside.nan() || inside.rank() < 0x40b0_0000_0000_0000
        }),
{
}

fn points(number: Scalar) -> (points: u32)
    ensures
        points == points_in(number),
{
    proof {
        lemma_clamped_small(number, crate::scalar::THREE, crate::scalar::SIXTY);
    }
    number.clamp(Scalar::of(crate::scalar::THREE), Scalar::of(crate::scalar::SIXTY)).whole()
}

fn ratio_inside(ratio: Scalar) -> (r: Scalar)
    ensures
        r == bounded_ratio(ratio),
{
    ratio.clamp(Scalar::of(crate::scalar::ZERO), Scalar::of(crate::scalar::ONE))
}

fn find_shape_edit(property: DesignProperty, value: &DesignValue, facts: &PropertyFacts) -> (edit:
    Option<ShapeEdit>)
    ensures
        edit == shape_edit_of(property, *value, *facts),
{
    match (property, value) {
        (DesignProperty::PolygonCount, _) => match number_of(value) {
            Some(number) => Some(ShapeEdit::PolygonPoints(points(number))),
            None => None,
        },
        (DesignProperty::StarPointCount, _) => match number_of(value) {
            Some(number) => Some(ShapeEdit::StarPoints(points(number))),
            None => None,
        },
        (DesignProperty::StarInnerRadius, DesignValue::Ratio(ratio)) => Some(
            ShapeEdit::StarInner(ratio_inside(*ratio)),
        ),
        (DesignProperty::ArcStartingAngle, DesignValue::AngleRadians(angle)) => Some(
            ShapeEdit::ArcStart(*angle),
        ),
        (DesignProperty::ArcSweep, DesignValue::AngleRadians(angle)) => Some(
            ShapeEdit::ArcSweep(*angle),
        ),
        (DesignProperty::ArcEndingAngle, DesignValue::AngleRadians(_)) => Some(
            ShapeEdit::ArcSweep(facts.swept),
        ),
        (DesignProperty::ArcInnerRadius, DesignValue::Ratio(ratio)) => Some(
            ShapeEdit::ArcInner(ratio_inside(*ratio)),
        ),
        _ => None,
    }
}

/// The layer's shape, changed, with the box it is drawn in; nothing to do where
/// the layer has none.
pub open spec fn shape_outcome(
    doc: Doc,
    id: NodeId,
    edit: ShapeEdit,
    rough_size: Option<Size>,
    r: PropertyEdit,
) -> bool {
    match crate::scene::find(doc.nodes@, id) {
        Some(node) => match crate::design_data::drawn_shape(*node.data, rough_size) {
            Some((shape, size)) => r == (PropertyEdit::Shape {
                shape: crate::design_data::shape_edited(shape, edit),
                size: size,
            }),
            None => nothing(r),
        },
        None => nothing(r),
    }
}

/// No operation at all.
pub open spec fn nothing(r: PropertyEdit) -> bool {
    r matches PropertyEdit::Operations(operations) && operations@.len() == 0
}

fn no_operations() -> (r: PropertyEdit)
    ensures
        nothing(r),
{
    PropertyEdit::Operations(Vec::new())
}

fn change_shape(doc: &Doc, id: NodeId, edit: ShapeEdit, rough_size: Option<Size>) -> (r:
    PropertyEdit)
    ensures
        shape_outcome(*doc, id, edit, rough_size, r),
{
    match doc.get(id) {
        Some(node) => match shape_and_size(&node.data, rough_size) {
            Some((shape, size)) => PropertyEdit::Shape { shape: edit_shape(shape, edit), size },
            None => no_operations(),
        },
        None => no_operations(),
    }
}

// ---------------------------------------------------------------------------
// Flags, masks and blending
// ---------------------------------------------------------------------------

/// Showing or hiding, masking or not, and the type of the mask: one operation
/// where it changes something.
pub open spec fn toggle_of(node: CanvasNode, property: DesignProperty, value: DesignValue) -> Option<
    Seq<Operation>,
> {
    match (property, value) {
        (DesignProperty::Visible, DesignValue::Bool(visible)) => Some(
            if node.flags.hidden != visible {
                Seq::empty()
            } else {
                seq![
                    Operation::SetFlags {
                        id: node.id,
                        old: node.flags,
                        new: (NodeFlags { hidden: !node.flags.hidden, ..node.flags }),
                    },
                ]
            },
        ),
        (DesignProperty::IsMask, DesignValue::Bool(masked)) => Some(
            if node.is_mask == masked {
                Seq::empty()
            } else {
                seq![Operation::SetMask { id: node.id, old: node.is_mask, new: masked }]
            },
        ),
        (DesignProperty::MaskType, DesignValue::MaskType(kind)) => Some(
            if node.mask_type == kind {
                Seq::empty()
            } else {
                seq![Operation::SetMaskType { id: node.id, old: node.mask_type, new: kind }]
            },
        ),
        _ => None,
    }
}

fn toggle(node: &CanvasNode, property: DesignProperty, value: &DesignValue) -> (r: Option<
    Vec<Operation>,
>)
    ensures
        match toggle_of(*node, property, *value) {
            Some(wanted) => r matches Some(operations) && operations@ == wanted,
            None => r is None,
        },
{
    let mut operations: Vec<Operation> = Vec::new();
    match (property, value) {
        (DesignProperty::Visible, DesignValue::Bool(visible)) => {
            if node.flags.hidden == *visible {
                operations.push(
                    Operation::SetFlags {
                        id: node.id,
                        old: node.flags,
                        new: NodeFlags { hidden: !node.flags.hidden, ..node.flags },
                    },
                );
            }
        },
        (DesignProperty::IsMask, DesignValue::Bool(masked)) => {
            if node.is_mask != *masked {
                operations.push(
                    Operation::SetMask { id: node.id, old: node.is_mask, new: *masked },
                );
            }
        },
        (DesignProperty::MaskType, DesignValue::MaskType(kind)) => {
            if node.mask_type != *kind {
                operations.push(
                    Operation::SetMaskType { id: node.id, old: node.mask_type, new: *kind },
                );
            }
        },
        _ => {
            return None;
        },
    }
    assert(operations@ =~= toggle_of(*node, property, *value)->0);
    Some(operations)
}

/// The write of a blend mode where it changes.
pub open spec fn blend_write(node: CanvasNode, target: BlendMode) -> Seq<Operation> {
    if node.blend_mode == target {
        Seq::empty()
    } else {
        seq![Operation::SetBlendMode { id: node.id, old: node.blend_mode, new: target }]
    }
}

/// The write of the isolation flag where it changes.
pub open spec fn isolation_write(node: CanvasNode, isolated: bool) -> Seq<Operation> {
    if node.flags.isolated_blend == isolated {
        Seq::empty()
    } else {
        seq![
            Operation::SetFlags {
                id: node.id,
                old: node.flags,
                new: (NodeFlags { isolated_blend: isolated, ..node.flags }),
            },
        ]
    }
}

/// Passing through is not isolating, with the normal mode; the normal mode
/// isolates; any other mode is written as it is.
pub open spec fn blend_operations_of(node: CanvasNode, mode: DesignBlendMode) -> Seq<Operation> {
    match mode {
        DesignBlendMode::PassThrough => isolation_write(node, false) + blend_write(
            node,
            BlendMode::Normal,
        ),
        DesignBlendMode::Normal => isolation_write(node, true) + blend_write(
            node,
            BlendMode::Normal,
        ),
        _ => match crate::design_values::stored_blend(mode) {
            Some(target) => blend_write(node, target),
            None => Seq::empty(),
        },
    }
}

fn write_blend(node: &CanvasNode, target: BlendMode, operations: &mut Vec<Operation>)
    ensures
        final(operations)@ == old(operations)@ + blend_write(*node, target),
{
    if node.blend_mode != target {
        operations.push(
            Operation::SetBlendMode { id: node.id, old: node.blend_mode, new: target },
        );
    }
    assert(operations@ =~= old(operations)@ + blend_write(*node, target));
}

fn write_isolation(node: &CanvasNode, isolated: bool, operations: &mut Vec<Operation>)
    ensures
        final(operations)@ == old(operations)@ + isolation_write(*node, isolated),
{
    if node.flags.isolated_blend != isolated {
        operations.push(
            Operation::SetFlags {
                id: node.id,
                old: node.flags,
                new: NodeFlags { isolated_blend: isolated, ..node.flags },
            },
        );
    }
    assert(operations@ =~= old(operations)@ + isolation_write(*node, isolated));
}

/// The operations that give a layer a blend mode.
pub fn blend_mode_operations(doc: &Doc, id: NodeId, mode: DesignBlendMode) -> (operations: Vec<
    Operation,
>)
    ensures
        operations@ == (match crate::scene::find(doc.nodes@, id) {
            Some(node) => blend_operations_of(node, mode),
            None => Seq::empty(),
        }),
{
    let mut operations: Vec<Operation> = Vec::new();
    assert(operations@ =~= Seq::<Operation>::empty());
    if let Some(node) = doc.get(id) {
        match mode {
            DesignBlendMode::PassThrough => {
                write_isolation(node, false, &mut operations);
                write_blend(node, BlendMode::Normal, &mut operations);
            },
            DesignBlendMode::Normal => {
                write_isolation(node, true, &mut operations);
                write_blend(node, BlendMode::Normal, &mut operations);
            },
            _ => if let Some(target) = engine_blend_mode(mode) {
                write_blend(node, target, &mut operations);
            },
        }
        assert(operations@ =~= blend_operations_of(*node, mode));
    }
    operations
}

// ---------------------------------------------------------------------------
// Strokes
// ---------------------------------------------------------------------------

/// The side of a stroke, clockwise from the top.
pub open spec fn stroke_side_of(property: DesignProperty) -> Option<u8> {
    match property {
        DesignProperty::StrokeWeightTop => Some(0),
        DesignProperty::StrokeWeightRight => Some(1),
        DesignProperty::StrokeWeightBottom => Some(2),
        DesignProperty::StrokeWeightLeft => Some(3),
        _ => None,
    }
}

pub open spec fn is_cap_property(property: DesignProperty) -> bool {
    property is StrokeStartCap || property is StrokeEndCap || property is StrokeEndpointCap
        || property is StrokeDashCap
}

pub open spec fn is_stroke_property(property: DesignProperty) -> bool {
    stroke_side_of(property) is Some || is_cap_property(property) || property is StrokeWeight
        || property is StrokeWeightMode || property is StrokeAlign || property is StrokeJoin
        || property is StrokeMiterAngle || property is StrokeDashMode
        || property is StrokeDashPattern
}

/// The cap that the document keeps: one for every end.
pub open spec fn cap_stored(cap: DesignStrokeCap) -> StrokeCap {
    match cap {
        DesignStrokeCap::Round => StrokeCap::Round,
        DesignStrokeCap::Square => StrokeCap::Square,
        _ => StrokeCap::Butt,
    }
}

pub open spec fn zeroed(list: Seq<Scalar>) -> Seq<Scalar> {
    list.map_values(|number: Scalar| number.at_least_zero())
}

/// The edit of strokes that a value asks for.
pub open spec fn stroke_edit_of(
    property: DesignProperty,
    value: DesignValue,
    facts: PropertyFacts,
    edit: Option<StrokeEdit>,
) -> bool {
    match (property, value) {
        (DesignProperty::StrokeWeight, _) => edit == (match crate::design_values::number_in(value) {
            Some(weight) => Some(StrokeEdit::Weight(weight.at_least_zero())),
            None => None,
        }),
        (DesignProperty::StrokeWeightMode, DesignValue::StrokeWeightMode(mode)) => edit == Some(
            StrokeEdit::PerSide(!(mode is All)),
        ),
        (DesignProperty::StrokeAlign, DesignValue::StrokeAlign(align)) => edit == Some(
            StrokeEdit::Align(align),
        ),
        (DesignProperty::StrokeJoin, DesignValue::StrokeJoin(join)) => edit == Some(
            StrokeEdit::Join(join),
        ),
        (DesignProperty::StrokeMiterAngle, _) => edit == (
        match crate::design_values::number_in(value) {
            Some(_) => Some(StrokeEdit::MiterLimit(facts.miter_limit)),
            None => None,
        }),
        (DesignProperty::StrokeDashMode, DesignValue::StrokeDashMode(mode)) => if mode is Solid {
            edit matches Some(StrokeEdit::Dash(dash)) && dash@.len() == 0
        } else {
            edit matches Some(StrokeEdit::StartDash(dash)) && dash@ == seq![
                Scalar::of(crate::scalar::FOUR),
                Scalar::of(crate::scalar::FOUR),
            ]
        },
        (DesignProperty::StrokeDashPattern, DesignValue::NumberList(pattern)) =>
            edit matches Some(StrokeEdit::Dash(dash)) && dash@ == zeroed(pattern@),
        _ => match stroke_side_of(property) {
            Some(side) => edit == (match crate::design_values::number_in(value) {
                Some(weight) => Some(
                    StrokeEdit::Side { side: side, weight: weight.at_least_zero() },
                ),
                None => None,
            }),
            None => if is_cap_property(property) {
                match value {
                    DesignValue::StrokeCap(cap) => edit == Some(StrokeEdit::Cap(cap_stored(cap))),
                    _ => edit is None,
                }
            } else {
                edit is None
            },
        },
    }
}

fn zero_all(list: &Vec<Scalar>) -> (r: Vec<Scalar>)
    ensures
        r@ == zeroed(list@),
{
    let mut r: Vec<Scalar> = Vec::new();
    let mut i: usize = 0;
    while i < list.len()
        invariant
            i <= list@.len(),
            r@ == zeroed(list@).take(i as int),
        decreases list@.len() - i,
    {
        r.push(list[i].max_zero());
        assert(r@ =~= zeroed(list@).take(i + 1));
        i = i + 1;
    }
    assert(r@ =~= zeroed(list@));
    r
}

fn find_stroke_edit(property: DesignProperty, value: &DesignValue, facts: &PropertyFacts) -> (edit:
    Option<StrokeEdit>)
    ensures
        stroke_edit_of(property, *value, *facts, edit),
{
    match (property, value) {
        (DesignProperty::StrokeWeight, _) => match number_of(value) {
            Some(weight) => Some(StrokeEdit::Weight(weight.max_zero())),
            None => None,
        },
        (DesignProperty::StrokeWeightMode, DesignValue::StrokeWeightMode(mode)) => Some(
            StrokeEdit::PerSide(*mode != StrokeWeightMode::All),
        ),
        (DesignProperty::StrokeAlign, DesignValue::StrokeAlign(align)) => Some(
            StrokeEdit::Align(*align),
        ),
        (DesignProperty::StrokeJoin, DesignValue::StrokeJoin(join)) => Some(
            StrokeEdit::Join(*join),
        ),
        (DesignProperty::StrokeMiterAngle, _) => match number_of(value) {
            Some(_) => Some(StrokeEdit::MiterLimit(facts.miter_limit)),
            None => None,
        },
        (DesignProperty::StrokeDashMode, DesignValue::StrokeDashMode(mode)) => {
            let mut dash: Vec<Scalar> = Vec::new();
            match mode {
                StrokeDashMode::Solid => Some(StrokeEdit::Dash(Arc::new(dash))),
                _ => {
                    dash.push(Scalar::of(crate::scalar::FOUR));
                    dash.push(Scalar::of(crate::scalar::FOUR));
                    assert(dash@ =~= seq![
                        Scalar::of(crate::scalar::FOUR),
                        Scalar::of(crate::scalar::FOUR),
                    ]);
                    Some(StrokeEdit::StartDash(Arc::new(dash)))
                },
            }
        },
        (DesignProperty::StrokeDashPattern, DesignValue::NumberList(pattern)) => Some(
            StrokeEdit::Dash(Arc::new(zero_all(pattern))),
        ),
        (DesignProperty::StrokeWeightTop, _) => side_edit(0, value),
        (DesignProperty::StrokeWeightRight, _) => side_edit(1, value),
        (DesignProperty::StrokeWeightBottom, _) => side_edit(2, value),
        (DesignProperty::StrokeWeightLeft, _) => side_edit(3, value),
        (DesignProperty::StrokeStartCap, DesignValue::StrokeCap(cap))
        | (DesignProperty::StrokeEndCap, DesignValue::StrokeCap(cap))
        | (DesignProperty::StrokeEndpointCap, DesignValue::StrokeCap(cap))
        | (DesignProperty::StrokeDashCap, DesignValue::StrokeCap(cap)) => Some(
            StrokeEdit::Cap(
                match cap {
                    DesignStrokeCap::Round => StrokeCap::Round,
                    DesignStrokeCap::Square => StrokeCap::Square,
                    _ => StrokeCap::Butt,
                },
            ),
        ),
        _ => None,
    }
}

fn side_edit(side: u8, value: &DesignValue) -> (edit: Option<StrokeEdit>)
    ensures
        edit == (match crate::design_values::number_in(*value) {
            Some(weight) => Some(StrokeEdit::Side { side: side, weight: weight.at_least_zero() }),
            None => None,
        }),
{
    match number_of(value) {
        Some(weight) => Some(StrokeEdit::Side { side, weight: weight.max_zero() }),
        None => None,
    }
}

// ---------------------------------------------------------------------------
// Layout
// ---------------------------------------------------------------------------

/// The layout of a frame.
pub open spec fn layout_of(doc: Doc, id: NodeId) -> Option<AutoLayout> {
    match crate::scene::find(doc.nodes@, id) {
        Some(node) => match *node.data {
            NodeData::Group(group) => group.auto_layout,
            _ => None,
        },
        None => None,
    }
}

fn own_layout(doc: &Doc, id: NodeId) -> (layout: Option<AutoLayout>)
    ensures
        layout == layout_of(*doc, id),
{
    match doc.get(id) {
        Some(node) => match &*node.data {
            NodeData::Group(group) => group.auto_layout,
            _ => None,
        },
        None => None,
    }
}

/// The frame lays out from left to right.
pub open spec fn lays_out_across(doc: Doc, id: NodeId) -> Option<bool> {
    match layout_of(doc, id) {
        Some(layout) => Some(layout.mode is Horizontal),
        None => None,
    }
}

pub fn primary_axis_is_horizontal(doc: &Doc, id: NodeId) -> (r: Option<bool>)
    ensures
        r == lays_out_across(*doc, id),
{
    match own_layout(doc, id) {
        Some(layout) => match layout.mode {
            LayoutMode::Horizontal => Some(true),
            LayoutMode::Vertical => Some(false),
        },
        None => None,
    }
}

/// The side of a padding, clockwise from the top.
pub open spec fn padding_side_of(property: DesignProperty) -> Option<u8> {
    match property {
        DesignProperty::PaddingTop => Some(0),
        DesignProperty::PaddingRight => Some(1),
        DesignProperty::PaddingBottom => Some(2),
        DesignProperty::PaddingLeft => Some(3),
        _ => None,
    }
}

/// Paddings written short: one for all; vertical and horizontal; top,
/// horizontal and bottom; or all four.
pub open spec fn padding_in(list: Seq<Scalar>) -> Option<Quad> {
    let v = zeroed(list);
    if v.len() == 1 {
        Some(Quad::all(v[0]))
    } else if v.len() == 2 {
        Some(Quad { first: v[0], second: v[1], third: v[0], fourth: v[1] })
    } else if v.len() == 3 {
        Some(Quad { first: v[0], second: v[1], third: v[2], fourth: v[1] })
    } else if v.len() == 4 {
        Some(Quad { first: v[0], second: v[1], third: v[2], fourth: v[3] })
    } else {
        None
    }
}

fn short_padding(list: &Vec<Scalar>) -> (r: Option<Quad>)
    ensures
        r == padding_in(list@),
{
    let v = zero_all(list);
    if v.len() == 1 {
        Some(Quad::all(v[0]))
    } else if v.len() == 2 {
        Some(Quad { first: v[0], second: v[1], third: v[0], fourth: v[1] })
    } else if v.len() == 3 {
        Some(Quad { first: v[0], second: v[1], third: v[2], fourth: v[1] })
    } else if v.len() == 4 {
        Some(Quad { first: v[0], second: v[1], third: v[2], fourth: v[3] })
    } else {
        None
    }
}

/// A cell of the alignment grid.
pub open spec fn cell_in(number: Scalar) -> u8 {
    number.clamped(
        Scalar::of(crate::scalar::ZERO),
        Scalar::of(crate::scalar::TWO),
    ).whole_part() as u8
}

fn cell(number: Scalar) -> (cell: u8)
    ensures
        cell == cell_in(number),
{
    proof {
        lemma_clamped_small(number, crate::scalar::ZERO, crate::scalar::TWO);
        lemma_small_cell(number);
    }
    let whole: u32 = number.clamp(
        Scalar::of(crate::scalar::ZERO),
        Scalar::of(crate::scalar::TWO),
    ).whole();
    whole as u8
}

proof fn lemma_small_cell(number: Scalar)
    ensures
        0 <= number.clamped(
            Scalar::of(crate::scalar::ZERO),
            Scalar::of(crate::scalar::TWO),
        ).whole_part() <= 2,
{
    let x = number.clamped(Scalar::of(crate::scalar::ZERO), Scalar::of(crate::scalar::TWO));
    if !(x.nan() || x.rank() <= 0 || x.exponent() < 1023) {
        let shift = (1075 - x.exponent()) as nat;
        let p = vstd::arithmetic::power2::pow2(shift) as int;
        let s = x.significand();
        vstd::arithmetic::power2::lemma2_to64_rest();
        if x.exponent() == 1024 {
            assert(shift == 51);
            assert(x.magnitude() == 0x4000_0000_0000_0000);
            assert(s == 0x10_0000_0000_0000);
        } else {
            assert(shift == 52);
        }
        assert(0 <= s / p <= 2) by (nonlinear_arith)
            requires
                0 <= s <= 2 * p,
                p > 0,
        ;
    }
}

pub open spec fn is_layout_property(property: DesignProperty) -> bool {
    padding_side_of(property) is Some || property is AutoLayoutAlignment || property is AlignmentX
        || property is AlignmentY || property is ItemSpacingMode
        || property is CounterAxisAlignContent || property is StackingOrder
        || property is IncludeStrokes || property is BaselineAlignment
        || property is PaddingShorthand || property is Wrap
}

/// The edit of a frame's layout that a value asks for. One coordinate of the
/// alignment needs the other from the layout itself.
pub open spec fn layout_edit_of(
    layout: Option<AutoLayout>,
    property: DesignProperty,
    value: DesignValue,
) -> Option<LayoutEdit> {
    match (property, value) {
        (DesignProperty::AutoLayoutAlignment, DesignValue::AutoLayoutAlignment { x, y }) => Some(
            LayoutEdit::Alignment { x: x, y: y },
        ),
        (DesignProperty::AlignmentX, _) => match (
            crate::design_values::number_in(value),
            layout,
        ) {
            (Some(number), Some(layout)) => Some(
                LayoutEdit::Alignment {
                    x: cell_in(number),
                    y: crate::design_data::alignment_cell(layout).1,
                },
            ),
            _ => None,
        },
        (DesignProperty::AlignmentY, _) => match (
            crate::design_values::number_in(value),
            layout,
        ) {
            (Some(number), Some(layout)) => Some(
                LayoutEdit::Alignment {
                    x: crate::design_data::alignment_cell(layout).0,
                    y: cell_in(number),
                },
            ),
            _ => None,
        },
        (DesignProperty::ItemSpacingMode, DesignValue::ItemSpacingMode(mode)) => Some(
            LayoutEdit::AutoSpacing(mode is Auto),
        ),
        (
            DesignProperty::CounterAxisAlignContent,
            DesignValue::CounterAxisAlignContent(content),
        ) => Some(LayoutEdit::CounterSpacing(content is SpaceBetween)),
        (DesignProperty::StackingOrder, DesignValue::StackingOrder(order)) => Some(
            LayoutEdit::FirstOnTop(order is FirstOnTop),
        ),
        (DesignProperty::IncludeStrokes, DesignValue::Bool(counted)) => Some(
            LayoutEdit::IncludeStrokes(counted),
        ),
        (DesignProperty::BaselineAlignment, DesignValue::BaselineAlignment(alignment)) => Some(
            LayoutEdit::Baseline(alignment is Baseline),
        ),
        (DesignProperty::PaddingShorthand, DesignValue::NumberList(list)) => match padding_in(
            list@,
        ) {
            Some(padding) => Some(LayoutEdit::Padding(padding)),
            None => None,
        },
        (DesignProperty::Wrap, DesignValue::Bool(wrap)) => Some(LayoutEdit::Wrap(wrap)),
        _ => match padding_side_of(property) {
            Some(side) => match crate::design_values::number_in(value) {
                Some(padding) => Some(
                    LayoutEdit::PaddingSide { side: side, padding: padding.at_least_zero() },
                ),
                None => None,
            },
            None => None,
        },
    }
}

fn find_layout_edit(
    layout: Option<AutoLayout>,
    property: DesignProperty,
    value: &DesignValue,
) -> (edit: Option<LayoutEdit>)
    ensures
        edit == layout_edit_of(layout, property, *value),
{
    match (property, value) {
        (DesignProperty::AutoLayoutAlignment, DesignValue::AutoLayoutAlignment { x, y }) => Some(
            LayoutEdit::Alignment { x: *x, y: *y },
        ),
        (DesignProperty::AlignmentX, _) => match (number_of(value), layout) {
            (Some(number), Some(layout)) => Some(
                LayoutEdit::Alignment { x: cell(number), y: auto_layout_alignment(&layout).1 },
            ),
            _ => None,
        },
        (DesignProperty::AlignmentY, _) => match (number_of(value), layout) {
            (Some(number), Some(layout)) => Some(
                LayoutEdit::Alignment { x: auto_layout_alignment(&layout).0, y: cell(number) },
            ),
            _ => None,
        },
        (DesignProperty::ItemSpacingMode, DesignValue::ItemSpacingMode(mode)) => Some(
            LayoutEdit::AutoSpacing(*mode == ItemSpacingMode::Auto),
        ),
        (
            DesignProperty::CounterAxisAlignContent,
            DesignValue::CounterAxisAlignContent(content),
        ) => Some(
            LayoutEdit::CounterSpacing(*content == CounterAxisAlignContent::SpaceBetween),
        ),
        (DesignProperty::StackingOrder, DesignValue::StackingOrder(order)) => Some(
            LayoutEdit::FirstOnTop(*order == StackingOrder::FirstOnTop),
        ),
        (DesignProperty::IncludeStrokes, DesignValue::Bool(counted)) => Some(
            LayoutEdit::IncludeStrokes(*counted),
        ),
        (DesignProperty::BaselineAlignment, DesignValue::BaselineAlignment(alignment)) => Some(
            LayoutEdit::Baseline(*alignment == BaselineAlignment::Baseline),
        ),
        (DesignProperty::PaddingShorthand, DesignValue::NumberList(list)) => match short_padding(
            list,
        ) {
            Some(padding) => Some(LayoutEdit::Padding(padding)),
            None => None,
        },
        (DesignProperty::Wrap, DesignValue::Bool(wrap)) => Some(LayoutEdit::Wrap(*wrap)),
        (DesignProperty::PaddingTop, _) => padding_edit(0, value),
        (DesignProperty::PaddingRight, _) => padding_edit(1, value),
        (DesignProperty::PaddingBottom, _) => padding_edit(2, value),
        (DesignProperty::PaddingLeft, _) => padding_edit(3, value),
        _ => None,
    }
}

fn padding_edit(side: u8, value: &DesignValue) -> (edit: Option<LayoutEdit>)
    ensures
        edit == (match crate::design_values::number_in(*value) {
            Some(padding) => Some(
                LayoutEdit::PaddingSide { side: side, padding: padding.at_least_zero() },
            ),
            None => None,
        }),
{
    match number_of(value) {
        Some(padding) => Some(LayoutEdit::PaddingSide { side, padding: padding.max_zero() }),
        None => None,
    }
}

pub open spec fn is_child_property(property: DesignProperty) -> bool {
    property is LayoutPositioning || property is LayoutAlignSelf || property is LayoutGrow
}

/// The edit of what a layer says to the layout it stands in.
pub open spec fn child_edit_of(property: DesignProperty, value: DesignValue) -> Option<ChildEdit> {
    match (property, value) {
        (DesignProperty::LayoutPositioning, DesignValue::LayoutPositioning(positioning)) => Some(
            ChildEdit::Absolute(positioning is Absolute),
        ),
        (DesignProperty::LayoutAlignSelf, DesignValue::LayoutAlignSelf(alignment)) => Some(
            ChildEdit::Stretch(alignment is Stretch),
        ),
        (DesignProperty::LayoutGrow, _) => match crate::design_values::number_in(value) {
            Some(grow) => Some(ChildEdit::Grow(bounded_ratio(grow))),
            None => None,
        },
        _ => None,
    }
}

fn find_child_edit(property: DesignProperty, value: &DesignValue) -> (edit: Option<ChildEdit>)
    ensures
        edit == child_edit_of(property, *value),
{
    match (property, value) {
        (DesignProperty::LayoutPositioning, DesignValue::LayoutPositioning(positioning)) => Some(
            ChildEdit::Absolute(*positioning == LayoutPositioning::Absolute),
        ),
        (DesignProperty::LayoutAlignSelf, DesignValue::LayoutAlignSelf(alignment)) => Some(
            ChildEdit::Stretch(*alignment == LayoutAlignSelf::Stretch),
        ),
        (DesignProperty::LayoutGrow, _) => match number_of(value) {
            Some(grow) => Some(ChildEdit::Grow(ratio_inside(grow))),
            None => None,
        },
        _ => None,
    }
}

/// Gaps along the layout and across it; a frame without a layout has none.
pub open spec fn gap_of(doc: Doc, id: NodeId, property: DesignProperty, value: DesignValue) -> Option<
    PropertyEdit,
> {
    let number = match (property, value) {
        (DesignProperty::CounterAxisGap, DesignValue::OptionalNumber(gap)) => Some(
            match gap {
                Some(gap) => gap,
                None => Scalar::of(crate::scalar::ZERO),
            },
        ),
        _ => crate::design_values::number_in(value),
    };
    match (number, lays_out_across(doc, id)) {
        (Some(gap), Some(across)) => Some(
            PropertyEdit::Gap {
                gap: gap,
                horizontal: if property is Gap {
                    across
                } else {
                    !across
                },
            },
        ),
        _ => None,
    }
}

fn find_gap(doc: &Doc, id: NodeId, property: DesignProperty, value: &DesignValue) -> (r: Option<
    PropertyEdit,
>)
    ensures
        r == gap_of(*doc, id, property, *value),
{
    let number = match (property, value) {
        (DesignProperty::CounterAxisGap, DesignValue::OptionalNumber(gap)) => match gap {
            Some(gap) => Some(*gap),
            None => Some(Scalar::of(crate::scalar::ZERO)),
        },
        _ => number_of(value),
    };
    match (number, primary_axis_is_horizontal(doc, id)) {
        (Some(gap), Some(across)) => {
            let along = match property {
                DesignProperty::Gap => true,
                _ => false,
            };
            Some(PropertyEdit::Gap { gap, horizontal: along == across })
        },
        _ => None,
    }
}

/// A limit of the size; no number takes it away.
pub open spec fn limit_of(property: DesignProperty, value: DesignValue) -> Option<PropertyEdit> {
    let limit = match value {
        DesignValue::OptionalNumber(limit) => Some(limit),
        _ => match crate::design_values::number_in(value) {
            Some(number) => Some(Some(number)),
            None => None,
        },
    };
    match limit {
        Some(limit) => Some(
            PropertyEdit::Limit {
                limit: limit,
                horizontal: property is MinWidth || property is MaxWidth,
                minimum: property is MinWidth || property is MinHeight,
            },
        ),
        None => None,
    }
}

fn find_limit(property: DesignProperty, value: &DesignValue) -> (r: Option<PropertyEdit>)
    ensures
        r == limit_of(property, *value),
{
    let limit = match value {
        DesignValue::OptionalNumber(limit) => *limit,
        _ => match number_of(value) {
            Some(number) => Some(number),
            None => {
                return None;
            },
        },
    };
    let horizontal = match property {
        DesignProperty::MinWidth | DesignProperty::MaxWidth => true,
        _ => false,
    };
    let minimum = match property {
        DesignProperty::MinWidth | DesignProperty::MinHeight => true,
        _ => false,
    };
    Some(PropertyEdit::Limit { limit, horizontal, minimum })
}

/// The layout mode that the document keeps; a grid has none.
pub open spec fn mode_stored(mode: DesignLayoutMode) -> Option<Option<LayoutMode>> {
    match mode {
        DesignLayoutMode::Free => Some(None),
        DesignLayoutMode::Horizontal => Some(Some(LayoutMode::Horizontal)),
        DesignLayoutMode::Vertical => Some(Some(LayoutMode::Vertical)),
        DesignLayoutMode::Grid => None,
    }
}

/// What setting the layout mode of a layer does: only groups have one.
pub open spec fn mode_outcome(
    doc: Doc,
    id: NodeId,
    mode: DesignLayoutMode,
    shown: Option<Size>,
    r: Option<Vec<Operation>>,
) -> bool {
    let group = crate::scene::find(doc.nodes@, id) matches Some(node) && *node.data is Group;
    match mode_stored(mode) {
        Some(target) if group => r matches Some(operations) && crate::design_data::edits_data(
            operations@,
            doc,
            id,
            DataEdit::Mode { mode: target, shown: shown },
        ),
        _ => r is None,
    }
}

pub fn layout_mode_operations(
    doc: &Doc,
    id: NodeId,
    mode: DesignLayoutMode,
    shown: Option<Size>,
) -> (r: Option<Vec<Operation>>)
    ensures
        mode_outcome(*doc, id, mode, shown, r),
{
    let target = match mode {
        DesignLayoutMode::Free => None,
        DesignLayoutMode::Horizontal => Some(LayoutMode::Horizontal),
        DesignLayoutMode::Vertical => Some(LayoutMode::Vertical),
        DesignLayoutMode::Grid => {
            return None;
        },
    };
    match doc.get(id) {
        Some(node) => match &*node.data {
            NodeData::Group(_) => Some(
                replace_data_operation(doc, id, &DataEdit::Mode { mode: target, shown }),
            ),
            _ => None,
        },
        None => None,
    }
}

// ---------------------------------------------------------------------------
// Sizing
// ---------------------------------------------------------------------------

/// How a layer is sized along one axis. In a laid-out frame, filling is said to
/// that frame, and nothing else changes; any other sizing takes the filling
/// back. A frame or a text then sizes itself.
pub open spec fn sizing_outcome(
    doc: Doc,
    id: NodeId,
    horizontal: bool,
    mode: SizingMode,
    r: Option<Vec<Operation>>,
) -> bool {
    match crate::scene::find(doc.nodes@, id) {
        None => r is None,
        Some(node) => match crate::design_data::layout_above(doc, id) {
            Some(above) => {
                let primary = horizontal == (above.mode is Horizontal);
                if mode is Fill {
                    r matches Some(operations) && crate::design_data::edits_child(
                        operations@,
                        doc,
                        id,
                        ChildEdit::Fill { primary: primary },
                    )
                } else {
                    r matches Some(operations) && sized(
                        operations@,
                        doc,
                        node,
                        Some(ChildEdit::Unfill { primary: primary }),
                        horizontal,
                        mode,
                    )
                }
            },
            None => if mode is Fill {
                r is None
            } else {
                r matches Some(operations) && sized(
                    operations@,
                    doc,
                    node,
                    None,
                    horizontal,
                    mode,
                )
            },
        },
    }
}

/// The edit by which a layer sizes itself.
pub open spec fn own_sizing(data: NodeData, horizontal: bool, mode: SizingMode) -> Option<
    DataEdit,
> {
    match data {
        NodeData::Group(_) => Some(
            DataEdit::Layout(
                LayoutEdit::Sizing {
                    horizontal: horizontal,
                    sizing: if mode is Hug {
                        AxisSizing::Hug
                    } else {
                        AxisSizing::Fixed
                    },
                },
            ),
        ),
        NodeData::Text(_) => Some(
            DataEdit::Text(TextEdit::Sizing { horizontal: horizontal, mode: mode }),
        ),
        _ => None,
    }
}

/// The operations by which a layer sizes itself.
pub open spec fn sized_by(
    operations: Seq<Operation>,
    doc: Doc,
    node: CanvasNode,
    horizontal: bool,
    mode: SizingMode,
) -> bool {
    match own_sizing(*node.data, horizontal, mode) {
        Some(edit) => crate::design_data::edits_data(operations, doc, node.id, edit),
        None => operations.len() == 0,
    }
}

/// First what is said to the frame above, in `n` operations, then the layer's own
/// sizing.
pub open spec fn sized_behind(
    operations: Seq<Operation>,
    doc: Doc,
    node: CanvasNode,
    child: Option<ChildEdit>,
    horizontal: bool,
    mode: SizingMode,
    n: int,
) -> bool {
    &&& 0 <= n <= operations.len()
    &&& match child {
        Some(edit) => crate::design_data::edits_child(operations.take(n), doc, node.id, edit),
        None => n == 0,
    }
    &&& sized_by(operations.skip(n), doc, node, horizontal, mode)
}

/// First what is said to the frame above, then the layer's own sizing.
pub open spec fn sized(
    operations: Seq<Operation>,
    doc: Doc,
    node: CanvasNode,
    child: Option<ChildEdit>,
    horizontal: bool,
    mode: SizingMode,
) -> bool {
    exists|n: int| #[trigger] sized_behind(operations, doc, node, child, horizontal, mode, n)
}

fn sizing_operations(doc: &Doc, id: NodeId, horizontal: bool, mode: SizingMode) -> (r: Option<
    Vec<Operation>,
>)
    ensures
        sizing_outcome(*doc, id, horizontal, mode, r),
{
    proof {
        crate::scene::lemma_find_has_id(doc.nodes@, id);
    }
    let node = match doc.get(id) {
        None => {
            return None;
        },
        Some(node) => node,
    };
    let fill = match mode {
        SizingMode::Fill => true,
        _ => false,
    };
    let mut operations: Vec<Operation> = Vec::new();
    let ghost mut child: Option<ChildEdit> = None;
    match parent_layout(doc, id) {
        Some(above) => {
            let across = match above.mode {
                LayoutMode::Horizontal => true,
                LayoutMode::Vertical => false,
            };
            let primary = horizontal == across;
            if fill {
                return Some(layout_child_operations(doc, id, ChildEdit::Fill { primary }));
            }
            operations = layout_child_operations(doc, id, ChildEdit::Unfill { primary });
            proof {
                child = Some(ChildEdit::Unfill { primary: primary });
            }
        },
        None => {
            if fill {
                return None;
            }
        },
    }
    let ghost first = operations@;
    let edit = match &*node.data {
        NodeData::Group(_) => {
            let sizing = match mode {
                SizingMode::Hug => AxisSizing::Hug,
                _ => AxisSizing::Fixed,
            };
            Some(DataEdit::Layout(LayoutEdit::Sizing { horizontal, sizing }))
        },
        NodeData::Text(_) => Some(DataEdit::Text(TextEdit::Sizing { horizontal, mode })),
        _ => None,
    };
    assert(edit == own_sizing(*node.data, horizontal, mode));
    if let Some(edit) = edit {
        let own = replace_data_operation(doc, id, &edit);
        extend(&mut operations, &own);
        proof {
            assert(operations@.take(first.len() as int) =~= first);
            assert(operations@.skip(first.len() as int) =~= own@);
        }
    }
    assert(operations@.take(first.len() as int) =~= first);
    assert(sized_behind(
        operations@,
        *doc,
        *node,
        child,
        horizontal,
        mode,
        first.len() as int,
    ));
    Some(operations)
}

// ---------------------------------------------------------------------------
// Text
// ---------------------------------------------------------------------------

pub open spec fn is_text_property(property: DesignProperty) -> bool {
    property is FontFamily || property is FontSize || property is FontWeight
        || property is LineHeight || property is LetterSpacing
        || property is HorizontalTextAlignment || property is VerticalTextAlignment
        || property is TextDecoration || property is TextResize
}

/// A finite number above zero.
pub open spec fn positive(number: Scalar) -> bool {
    number.finite() && !number.le(Scalar::of(crate::scalar::ZERO))
}

pub open spec fn weight_in(number: Scalar) -> u16 {
    number.clamped(
        Scalar::of(crate::scalar::ONE),
        Scalar::of(crate::scalar::THOUSAND),
    ).whole_part() as u16
}

/// The edit of a text that a value asks for. Only percentages are kept as line
/// heights, and only pixels as letter spacing.
pub open spec fn text_edit_of(
    property: DesignProperty,
    value: DesignValue,
    facts: PropertyFacts,
) -> Option<TextEdit> {
    match (property, value) {
        (DesignProperty::FontFamily, DesignValue::Text(family)) => if family@.len() > 0 {
            Some(TextEdit::Style(StyleEdit::Family(family)))
        } else {
            None
        },
        (DesignProperty::FontSize, _) => match crate::design_values::number_in(value) {
            Some(size) => if positive(size) {
                Some(TextEdit::Style(StyleEdit::Size(size)))
            } else {
                None
            },
            None => None,
        },
        (DesignProperty::FontWeight, _) => match crate::design_values::number_in(value) {
            Some(weight) => Some(TextEdit::Style(StyleEdit::Weight(weight_in(weight)))),
            None => None,
        },
        (DesignProperty::LineHeight, DesignValue::LineHeight(LineHeight::Percent(_))) =>
            if positive(facts.fraction) {
                Some(TextEdit::Style(StyleEdit::LineHeight(facts.fraction)))
            } else {
                None
            },
        (
            DesignProperty::LetterSpacing,
            DesignValue::LetterSpacing(LetterSpacing::Pixels(pixels)),
        ) => if pixels.finite() {
            Some(TextEdit::Style(StyleEdit::LetterSpacing(pixels)))
        } else {
            None
        },
        (
            DesignProperty::HorizontalTextAlignment,
            DesignValue::TextHorizontalAlignment(align),
        ) => Some(TextEdit::Align(align)),
        (DesignProperty::VerticalTextAlignment, DesignValue::TextVerticalAlignment(align)) => Some(
            TextEdit::VerticalAlign(align),
        ),
        (DesignProperty::TextDecoration, DesignValue::TextDecoration(decoration)) => Some(
            TextEdit::Style(
                StyleEdit::Decoration {
                    underline: decoration is Underline,
                    strikethrough: decoration is Strikethrough,
                },
            ),
        ),
        (DesignProperty::TextResize, DesignValue::TextResize(resize)) => Some(
            TextEdit::Resize(resize),
        ),
        _ => None,
    }
}

fn font_weight(number: Scalar) -> (weight: u16)
    ensures
        weight == weight_in(number),
{
    proof {
        lemma_clamped_small(number, crate::scalar::ONE, crate::scalar::THOUSAND);
        lemma_weight_bound(
            number.clamped(Scalar::of(crate::scalar::ONE), Scalar::of(crate::scalar::THOUSAND)),
        );
    }
    let whole: u32 = number.clamp(
        Scalar::of(crate::scalar::ONE),
        Scalar::of(crate::scalar::THOUSAND),
    ).whole();
    whole as u16
}

proof fn lemma_weight_bound(x: Scalar)
    requires
        x.nan() || x.rank() <= 0x408f_4000_0000_0000,
    ensures
        0 <= x.whole_part() <= 0xffff,
{
    if !(x.nan() || x.rank() <= 0 || x.exponent() < 1023) {
        let shift = (1075 - x.exponent()) as nat;
        assert(x.exponent() <= 1032);
        assert(43 <= shift <= 52);
        if shift > 43 {
            vstd::arithmetic::power2::lemma_pow2_strictly_increases(43, shift);
        }
        vstd::arithmetic::power2::lemma2_to64_rest();
        let p = vstd::arithmetic::power2::pow2(shift) as int;
        assert(p >= 0x800_0000_0000);
        let s = x.significand();
        assert(0 <= s / p <= 0xffff) by (nonlinear_arith)
            requires
                0 <= s < 0x20_0000_0000_0000,
                p >= 0x800_0000_0000,
        ;
    }
}

fn is_positive(number: Scalar) -> (r: bool)
    ensures
        r == positive(number),
{
    number.is_finite() && !number.at_most(Scalar::of(crate::scalar::ZERO))
}

fn find_text_edit(property: DesignProperty, value: &DesignValue, facts: &PropertyFacts) -> (edit:
    Option<TextEdit>)
    ensures
        edit == text_edit_of(property, *value, *facts),
{
    match (property, value) {
        (DesignProperty::FontFamily, DesignValue::Text(family)) => {
            if family.as_str().unicode_len() > 0 {
                Some(TextEdit::Style(StyleEdit::Family(family.clone())))
            } else {
                None
            }
        },
        (DesignProperty::FontSize, _) => match number_of(value) {
            Some(size) => if is_positive(size) {
                Some(TextEdit::Style(StyleEdit::Size(size)))
            } else {
                None
            },
            None => None,
        },
        (DesignProperty::FontWeight, _) => match number_of(value) {
            Some(weight) => Some(TextEdit::Style(StyleEdit::Weight(font_weight(weight)))),
            None => None,
        },
        (DesignProperty::LineHeight, DesignValue::LineHeight(LineHeight::Percent(_))) =>
            if is_positive(facts.fraction) {
                Some(TextEdit::Style(StyleEdit::LineHeight(facts.fraction)))
            } else {
                None
            },
        (
            DesignProperty::LetterSpacing,
            DesignValue::LetterSpacing(LetterSpacing::Pixels(pixels)),
        ) => if pixels.is_finite() {
            Some(TextEdit::Style(StyleEdit::LetterSpacing(*pixels)))
        } else {
            None
        },
        (
            DesignProperty::HorizontalTextAlignment,
            DesignValue::TextHorizontalAlignment(align),
        ) => Some(TextEdit::Align(*align)),
        (DesignProperty::VerticalTextAlignment, DesignValue::TextVerticalAlignment(align)) => Some(
            TextEdit::VerticalAlign(*align),
        ),
        (DesignProperty::TextDecoration, DesignValue::TextDecoration(decoration)) => Some(
            TextEdit::Style(
                StyleEdit::Decoration {
                    underline: *decoration == TextDecoration::Underline,
                    strikethrough: *decoration == TextDecoration::Strikethrough,
                },
            ),
        ),
        (DesignProperty::TextResize, DesignValue::TextResize(resize)) => Some(
            TextEdit::Resize(*resize),
        ),
        _ => None,
    }
}

// ---------------------------------------------------------------------------
// All properties
// ---------------------------------------------------------------------------

/// Operations that edit the data, as the result of an edit.
pub open spec fn data_outcome(
    doc: Doc,
    id: NodeId,
    edit: Option<DataEdit>,
    r: Option<PropertyEdit>,
) -> bool {
    match edit {
        Some(edit) => r matches Some(PropertyEdit::Operations(operations))
            && crate::design_data::edits_data(operations@, doc, id, edit),
        None => r is None,
    }
}

/// Operations as the result of an edit.
pub open spec fn listed(r: Option<PropertyEdit>) -> Option<Vec<Operation>> {
    match r {
        Some(PropertyEdit::Operations(operations)) => Some(operations),
        _ => None,
    }
}

/// What an edit of one property does. No result means that the property, or the
/// value for it, is not wired; no operation means that nothing changes.
pub open spec fn property_outcome(
    doc: Doc,
    id: NodeId,
    property: DesignProperty,
    value: DesignValue,
    facts: PropertyFacts,
    r: Option<PropertyEdit>,
) -> bool {
    if field_of(property) is Some {
        r == (match field_number(field_of(property)->0, value) {
            Some(number) => Some(
                PropertyEdit::Field { field: field_of(property)->0, number: number },
            ),
            None => None,
        })
    } else if corner_of(property) is Some {
        r == (match crate::design_values::number_in(value) {
            Some(radius) => Some(
                PropertyEdit::Corner {
                    corner: corner_of(property)->0,
                    radius: radius.at_least_zero(),
                },
            ),
            None => None,
        })
    } else if is_shape_property(property) {
        match shape_edit_of(property, value, facts) {
            Some(edit) => r is Some && shape_outcome(doc, id, edit, facts.rough_size, r->0),
            None => r is None,
        }
    } else if is_stroke_property(property) {
        exists|edit: Option<StrokeEdit>| #[trigger]
            stroke_edit_of(property, value, facts, edit) && data_outcome(
                doc,
                id,
                (match edit {
                    Some(edit) => Some(DataEdit::Strokes(edit)),
                    None => None,
                }),
                r,
            )
    } else if is_layout_property(property) {
        data_outcome(
            doc,
            id,
            (match layout_edit_of(layout_of(doc, id), property, value) {
                Some(edit) => Some(DataEdit::Layout(edit)),
                None => None,
            }),
            r,
        )
    } else if is_child_property(property) {
        match child_edit_of(property, value) {
            Some(edit) => r matches Some(PropertyEdit::Operations(operations))
                && crate::design_data::edits_child(operations@, doc, id, edit),
            None => r is None,
        }
    } else if is_text_property(property) {
        data_outcome(
            doc,
            id,
            (match text_edit_of(property, value, facts) {
                Some(edit) => Some(DataEdit::Text(edit)),
                None => None,
            }),
            r,
        )
    } else {
        other_outcome(doc, id, property, value, facts, r)
    }
}

/// The properties that stand alone.
pub open spec fn other_outcome(
    doc: Doc,
    id: NodeId,
    property: DesignProperty,
    value: DesignValue,
    facts: PropertyFacts,
    r: Option<PropertyEdit>,
) -> bool {
    match (property, value) {
        (DesignProperty::Visible, _) | (DesignProperty::IsMask, _) | (
            DesignProperty::MaskType,
            _,
        ) => match crate::scene::find(doc.nodes@, id) {
            Some(node) => match toggle_of(node, property, value) {
                Some(wanted) => r matches Some(PropertyEdit::Operations(operations))
                    && operations@ == wanted,
                None => r is None,
            },
            None => r is None,
        },
        (DesignProperty::IndependentCorners, DesignValue::Bool(independent)) => data_outcome(
            doc,
            id,
            Some(DataEdit::IndependentCorners(independent)),
            r,
        ),
        (DesignProperty::BooleanOperation, DesignValue::BooleanOperation(op)) => data_outcome(
            doc,
            id,
            Some(DataEdit::Boolean(op)),
            r,
        ),
        (DesignProperty::BlendMode, DesignValue::BlendMode(mode)) => if mode is PassThrough
            || crate::design_values::stored_blend(mode) is Some {
            r matches Some(PropertyEdit::Operations(operations)) && operations@ == (
            match crate::scene::find(doc.nodes@, id) {
                Some(node) => blend_operations_of(node, mode),
                None => Seq::empty(),
            })
        } else {
            r is None
        },
        (DesignProperty::ClipContent, DesignValue::Bool(enabled)) => r == Some(
            PropertyEdit::ClipContent(enabled),
        ),
        (DesignProperty::LayoutMode, DesignValue::LayoutMode(mode)) => (r is Some
            ==> r->0 is Operations) && mode_outcome(doc, id, mode, facts.shown_size, listed(r)),
        (DesignProperty::Gap, _) | (DesignProperty::CounterAxisGap, _) => r == gap_of(
            doc,
            id,
            property,
            value,
        ),
        (DesignProperty::PaddingHorizontal, _) => r == padding_both(value, true),
        (DesignProperty::PaddingVertical, _) => r == padding_both(value, false),
        (DesignProperty::HorizontalSizing, DesignValue::SizingMode(mode)) => (r is Some
            ==> r->0 is Operations) && sizing_outcome(doc, id, true, mode, listed(r)),
        (DesignProperty::VerticalSizing, DesignValue::SizingMode(mode)) => (r is Some
            ==> r->0 is Operations) && sizing_outcome(doc, id, false, mode, listed(r)),
        (DesignProperty::MinWidth, _) | (DesignProperty::MaxWidth, _) | (
            DesignProperty::MinHeight,
            _,
        ) | (DesignProperty::MaxHeight, _) => r == limit_of(property, value),
        _ => r is None,
    }
}

/// Padding on two opposite sides.
pub open spec fn padding_both(value: DesignValue, horizontal: bool) -> Option<PropertyEdit> {
    match crate::design_values::number_in(value) {
        Some(padding) => Some(PropertyEdit::Padding { padding: padding, horizontal: horizontal }),
        None => None,
    }
}

fn find_padding_both(value: &DesignValue, horizontal: bool) -> (r: Option<PropertyEdit>)
    ensures
        r == padding_both(*value, horizontal),
{
    match number_of(value) {
        Some(padding) => Some(PropertyEdit::Padding { padding, horizontal }),
        None => None,
    }
}

fn in_list(operations: Option<Vec<Operation>>) -> (r: Option<PropertyEdit>)
    ensures
        listed(r) == operations,
        r is Some ==> r->0 is Operations,
        r is Some == operations is Some,
{
    match operations {
        Some(operations) => Some(PropertyEdit::Operations(operations)),
        None => None,
    }
}

fn data_operations(doc: &Doc, id: NodeId, edit: Option<DataEdit>) -> (r: Option<PropertyEdit>)
    ensures
        data_outcome(*doc, id, edit, r),
{
    match edit {
        Some(edit) => Some(PropertyEdit::Operations(replace_data_operation(doc, id, &edit))),
        None => None,
    }
}

fn corner_edit(corner: u8, value: &DesignValue) -> (r: Option<PropertyEdit>)
    ensures
        r == (match crate::design_values::number_in(*value) {
            Some(radius) => Some(
                PropertyEdit::Corner { corner: corner, radius: radius.at_least_zero() },
            ),
            None => None,
        }),
{
    match number_of(value) {
        Some(radius) => Some(PropertyEdit::Corner { corner, radius: radius.max_zero() }),
        None => None,
    }
}

/// Committed operations for one property edit.
pub fn property_operations(
    doc: &Doc,
    id: NodeId,
    property: DesignProperty,
    value: &DesignValue,
    facts: &PropertyFacts,
) -> (r: Option<PropertyEdit>)
    ensures
        property_outcome(*doc, id, property, *value, *facts, r),
{
    match property {
        DesignProperty::X => field_edit(InspectorField::X, value),
        DesignProperty::Y => field_edit(InspectorField::Y, value),
        DesignProperty::Width => field_edit(InspectorField::Width, value),
        DesignProperty::Height => field_edit(InspectorField::Height, value),
        DesignProperty::Rotation => field_edit(InspectorField::Rotation, value),
        DesignProperty::Opacity => field_edit(InspectorField::Opacity, value),
        DesignProperty::CornerRadius => field_edit(InspectorField::CornerRadius, value),
        DesignProperty::CornerSmoothing => field_edit(InspectorField::CornerSmoothing, value),
        DesignProperty::CornerRadiusTopLeft => corner_edit(0, value),
        DesignProperty::CornerRadiusTopRight => corner_edit(1, value),
        DesignProperty::CornerRadiusBottomRight => corner_edit(2, value),
        DesignProperty::CornerRadiusBottomLeft => corner_edit(3, value),
        DesignProperty::PolygonCount
        | DesignProperty::StarPointCount
        | DesignProperty::StarInnerRadius
        | DesignProperty::ArcStartingAngle
        | DesignProperty::ArcSweep
        | DesignProperty::ArcEndingAngle
        | DesignProperty::ArcInnerRadius => match find_shape_edit(property, value, facts) {
            Some(edit) => Some(change_shape(doc, id, edit, facts.rough_size)),
            None => None,
        },
        DesignProperty::StrokeWeight
        | DesignProperty::StrokeWeightMode
        | DesignProperty::StrokeWeightTop
        | DesignProperty::StrokeWeightRight
        | DesignProperty::StrokeWeightBottom
        | DesignProperty::StrokeWeightLeft
        | DesignProperty::StrokeAlign
        | DesignProperty::StrokeStartCap
        | DesignProperty::StrokeEndCap
        | DesignProperty::StrokeEndpointCap
        | DesignProperty::StrokeDashCap
        | DesignProperty::StrokeJoin
        | DesignProperty::StrokeMiterAngle
        | DesignProperty::StrokeDashMode
        | DesignProperty::StrokeDashPattern => {
            let edit = find_stroke_edit(property, value, facts);
            assert(stroke_edit_of(property, *value, *facts, edit));
            let data = match edit {
                Some(edit) => Some(DataEdit::Strokes(edit)),
                None => None,
            };
            data_operations(doc, id, data)
        },
        DesignProperty::AutoLayoutAlignment
        | DesignProperty::AlignmentX
        | DesignProperty::AlignmentY
        | DesignProperty::ItemSpacingMode
        | DesignProperty::CounterAxisAlignContent
        | DesignProperty::StackingOrder
        | DesignProperty::IncludeStrokes
        | DesignProperty::BaselineAlignment
        | DesignProperty::PaddingShorthand
        | DesignProperty::PaddingTop
        | DesignProperty::PaddingRight
        | DesignProperty::PaddingBottom
        | DesignProperty::PaddingLeft
        | DesignProperty::Wrap => {
            let data = match find_layout_edit(own_layout(doc, id), property, value) {
                Some(edit) => Some(DataEdit::Layout(edit)),
                None => None,
            };
            data_operations(doc, id, data)
        },
        DesignProperty::LayoutPositioning
        | DesignProperty::LayoutAlignSelf
        | DesignProperty::LayoutGrow => match find_child_edit(property, value) {
            Some(edit) => Some(
                PropertyEdit::Operations(layout_child_operations(doc, id, edit)),
            ),
            None => None,
        },
        DesignProperty::FontFamily
        | DesignProperty::FontSize
        | DesignProperty::FontWeight
        | DesignProperty::LineHeight
        | DesignProperty::LetterSpacing
        | DesignProperty::HorizontalTextAlignment
        | DesignProperty::VerticalTextAlignment
        | DesignProperty::TextDecoration
        | DesignProperty::TextResize => {
            let data = match find_text_edit(property, value, facts) {
                Some(edit) => Some(DataEdit::Text(edit)),
                None => None,
            };
            data_operations(doc, id, data)
        },
        _ => other_operations(doc, id, property, value, facts),
    }
}

fn other_operations(
    doc: &Doc,
    id: NodeId,
    property: DesignProperty,
    value: &DesignValue,
    facts: &PropertyFacts,
) -> (r: Option<PropertyEdit>)
    ensures
        other_outcome(*doc, id, property, *value, *facts, r),
{
    match (property, value) {
        (DesignProperty::Visible, _) | (DesignProperty::IsMask, _) | (
            DesignProperty::MaskType,
            _,
        ) => match doc.get(id) {
            Some(node) => in_list(toggle(node, property, value)),
            None => None,
        },
        (DesignProperty::IndependentCorners, DesignValue::Bool(independent)) => data_operations(
            doc,
            id,
            Some(DataEdit::IndependentCorners(*independent)),
        ),
        (DesignProperty::BooleanOperation, DesignValue::BooleanOperation(op)) => data_operations(
            doc,
            id,
            Some(DataEdit::Boolean(*op)),
        ),
        (DesignProperty::BlendMode, DesignValue::BlendMode(mode)) => {
            let known = match mode {
                DesignBlendMode::PassThrough => true,
                _ => engine_blend_mode(*mode).is_some(),
            };
            if known {
                Some(PropertyEdit::Operations(blend_mode_operations(doc, id, *mode)))
            } else {
                None
            }
        },
        (DesignProperty::ClipContent, DesignValue::Bool(enabled)) => Some(
            PropertyEdit::ClipContent(*enabled),
        ),
        (DesignProperty::LayoutMode, DesignValue::LayoutMode(mode)) => in_list(
            layout_mode_operations(doc, id, *mode, facts.shown_size),
        ),
        (DesignProperty::Gap, _) | (DesignProperty::CounterAxisGap, _) => find_gap(
            doc,
            id,
            property,
            value,
        ),
        (DesignProperty::PaddingHorizontal, _) => find_padding_both(value, true),
        (DesignProperty::PaddingVertical, _) => find_padding_both(value, false),
        (DesignProperty::HorizontalSizing, DesignValue::SizingMode(mode)) => in_list(
            sizing_operations(doc, id, true, *mode),
        ),
        (DesignProperty::VerticalSizing, DesignValue::SizingMode(mode)) => in_list(
            sizing_operations(doc, id, false, *mode),
        ),
        (DesignProperty::MinWidth, _) | (DesignProperty::MaxWidth, _) | (
            DesignProperty::MinHeight,
            _,
        ) | (DesignProperty::MaxHeight, _) => find_limit(property, value),
        _ => None,
    }
}

// ---------------------------------------------------------------------------
// Laws
// ---------------------------------------------------------------------------

/// The text of a layer.
pub open spec fn text_in(doc: Doc, id: NodeId) -> Option<TextNode> {
    match crate::scene::find(doc.nodes@, id) {
        Some(node) => match *node.data {
            NodeData::Text(text) => Some(text),
            _ => None,
        },
        None => None,
    }
}

/// The operations of an edit of a property make one document of another.
pub open spec fn edited_into(
    before: Doc,
    after: Doc,
    id: NodeId,
    property: DesignProperty,
    value: DesignValue,
    facts: PropertyFacts,
) -> bool {
    exists|operations: Vec<Operation>| #[trigger]
        property_outcome(
            before,
            id,
            property,
            value,
            facts,
            Some(PropertyEdit::Operations(operations)),
        ) && crate::operations::carried(before.content(), operations@) && after.content()
            == crate::operations::all_applied(before.content(), operations@)
}

/// A style as an edit leaves it: edited, or as it was where that is equal.
pub open spec fn style_set(old: TextStyle, edit: StyleEdit, new: TextStyle) -> bool {
    let edited = crate::design_data::style_edited(old, edit);
    new == edited || new == old && old.alike(edited)
}

/// An edit of the style of a text sets it for the text and for all its parts.
proof fn lemma_style_step(
    before: Doc,
    after: Doc,
    id: NodeId,
    property: DesignProperty,
    value: DesignValue,
    facts: PropertyFacts,
    edit: StyleEdit,
)
    requires
        before.well_formed(),
        after.well_formed(),
        text_in(before, id) is Some,
        is_text_property(property),
        text_edit_of(property, value, facts) == Some(TextEdit::Style(edit)),
        edited_into(before, after, id, property, value, facts),
    ensures
        text_in(after, id) matches Some(text) && {
            let old = text_in(before, id)->0;
            &&& text.content == old.content
            &&& style_set(old.style, edit, text.style)
            &&& text.style_runs@.len() == old.style_runs@.len()
            &&& forall|i: int|
                0 <= i < text.style_runs@.len() ==> {
                    &&& (#[trigger] text.style_runs@[i]).start == old.style_runs@[i].start
                    &&& text.style_runs@[i].end == old.style_runs@[i].end
                    &&& style_set(old.style_runs@[i].style, edit, text.style_runs@[i].style)
                }
        },
{
    crate::operations::lemma_find_is_content(before, id);
    crate::operations::lemma_find_is_content(after, id);
    let operations = choose|operations: Vec<Operation>| #[trigger]
        property_outcome(
            before,
            id,
            property,
            value,
            facts,
            Some(PropertyEdit::Operations(operations)),
        ) && crate::operations::carried(before.content(), operations@) && after.content()
            == crate::operations::all_applied(before.content(), operations@);
    crate::scene::lemma_find_has_id(before.nodes@, id);
    let node = crate::scene::find(before.nodes@, id)->0;
    let wanted = DataEdit::Text(TextEdit::Style(edit));
    assert(data_outcome(
        before,
        id,
        Some(wanted),
        Some(PropertyEdit::Operations(operations)),
    ));
    assert(crate::design_data::concerns(wanted, *node.data));
    let new = choose|new: NodeData| #[trigger]
        crate::design_data::data_edited(*node.data, wanted, new) && crate::design_data::renews(
            operations@,
            node,
            new,
        );
    let old = text_in(before, id)->0;
    let edited = new->Text_0;
    assert forall|i: int| 0 <= i < edited.style_runs@.len() implies (
    #[trigger] edited.style_runs@[i]).style == crate::design_data::style_edited(
        old.style_runs@[i].style,
        edit,
    ) && edited.style_runs@[i].start == old.style_runs@[i].start && edited.style_runs@[i].end
        == old.style_runs@[i].end by {}
    if operations@.len() == 0 {
        assert(operations@ =~= Seq::<Operation>::empty());
        assert forall|i: int| 0 <= i < old.style_runs@.len() implies style_set(
            (#[trigger] old.style_runs@[i]).style,
            edit,
            old.style_runs@[i].style,
        ) by {
            assert(old.style_runs@[i].alike(edited.style_runs@[i]));
        }
    } else {
        assert(operations@.drop_last() =~= Seq::<Operation>::empty());
    }
    reveal_with_fuel(crate::operations::all_applied, 2);
    reveal_with_fuel(crate::operations::carried, 2);
}

/// The style that five edits in turn have set; numbers are compared by value.
pub open spec fn styled_as(
    style: TextStyle,
    size: Scalar,
    weight: u16,
    line_height: Scalar,
    spacing: Scalar,
    decoration: TextDecoration,
) -> bool {
    &&& style.size_px.same(size)
    &&& style.weight == weight
    &&& style.line_height.same(line_height)
    &&& style.line_height_auto_percent is None
    &&& style.letter_spacing.same(spacing)
    &&& style.underline == decoration is Underline
    &&& style.strikethrough == decoration is Strikethrough
}

/// Size, weight, line height, letter spacing and decoration of a text, edited in
/// turn, all hold in the end, for the text and for every part of it that has a
/// style of its own; which parts those are, and what the text says, stays as it
/// was. `docs` holds the document before the first edit and after each.
pub proof fn lemma_typography_in_turn(
    docs: Seq<Doc>,
    id: NodeId,
    size: Scalar,
    weight: Scalar,
    percent: Scalar,
    spacing: Scalar,
    decoration: TextDecoration,
    facts: PropertyFacts,
)
    requires
        docs.len() == 6,
        forall|i: int| 0 <= i < docs.len() ==> (#[trigger] docs[i]).well_formed(),
        text_in(docs[0], id) is Some,
        positive(size),
        positive(facts.fraction),
        spacing.finite(),
        edited_into(
            docs[0],
            docs[1],
            id,
            DesignProperty::FontSize,
            DesignValue::Number(size),
            facts,
        ),
        edited_into(
            docs[1],
            docs[2],
            id,
            DesignProperty::FontWeight,
            DesignValue::Number(weight),
            facts,
        ),
        edited_into(
            docs[2],
            docs[3],
            id,
            DesignProperty::LineHeight,
            DesignValue::LineHeight(LineHeight::Percent(percent)),
            facts,
        ),
        edited_into(
            docs[3],
            docs[4],
            id,
            DesignProperty::LetterSpacing,
            DesignValue::LetterSpacing(LetterSpacing::Pixels(spacing)),
            facts,
        ),
        edited_into(
            docs[4],
            docs[5],
            id,
            DesignProperty::TextDecoration,
            DesignValue::TextDecoration(decoration),
            facts,
        ),
    ensures
        text_in(docs[5], id) matches Some(text) && {
            let before = text_in(docs[0], id)->0;
            &&& text.content == before.content
            &&& styled_as(
                text.style,
                size,
                weight_in(weight),
                facts.fraction,
                spacing,
                decoration,
            )
            &&& text.style_runs@.len() == before.style_runs@.len()
            &&& forall|i: int|
                0 <= i < text.style_runs@.len() ==> {
                    &&& (#[trigger] text.style_runs@[i]).start == before.style_runs@[i].start
                    &&& text.style_runs@[i].end == before.style_runs@[i].end
                    &&& styled_as(
                        text.style_runs@[i].style,
                        size,
                        weight_in(weight),
                        facts.fraction,
                        spacing,
                        decoration,
                    )
                }
        },
{
    assert(docs[0].well_formed() && docs[1].well_formed() && docs[2].well_formed()
        && docs[3].well_formed() && docs[4].well_formed() && docs[5].well_formed());
    lemma_style_step(
        docs[0],
        docs[1],
        id,
        DesignProperty::FontSize,
        DesignValue::Number(size),
        facts,
        StyleEdit::Size(size),
    );
    lemma_style_step(
        docs[1],
        docs[2],
        id,
        DesignProperty::FontWeight,
        DesignValue::Number(weight),
        facts,
        StyleEdit::Weight(weight_in(weight)),
    );
    lemma_style_step(
        docs[2],
        docs[3],
        id,
        DesignProperty::LineHeight,
        DesignValue::LineHeight(LineHeight::Percent(percent)),
        facts,
        StyleEdit::LineHeight(facts.fraction),
    );
    lemma_style_step(
        docs[3],
        docs[4],
        id,
        DesignProperty::LetterSpacing,
        DesignValue::LetterSpacing(LetterSpacing::Pixels(spacing)),
        facts,
        StyleEdit::LetterSpacing(spacing),
    );
    lemma_style_step(
        docs[4],
        docs[5],
        id,
        DesignProperty::TextDecoration,
        DesignValue::TextDecoration(decoration),
        facts,
        StyleEdit::Decoration {
            underline: decoration is Underline,
            strikethrough: decoration is Strikethrough,
        },
    );
}

} // verus!
