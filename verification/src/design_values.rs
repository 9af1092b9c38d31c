//! The vocabulary of the design inspector: properties, values, blend modes and
//! kinds, and how they map to the document's.

use std::sync::Arc;

use vstd::prelude::*;

use crate::document::{
    BooleanOp, Doc, MaskType, NodeData, ParametricShape, TextAlign, TextAutoResize, TextVAlign,
};
use crate::ids::NodeId;
use crate::layer_context_ops::is_component_root;
use crate::paint::{BlendMode, StrokeAlign, StrokeJoin};
use crate::scalar::Scalar;

verus! {

/// Blend modes of the inspector. The document has no pass-through mode, which is
/// a flag of its own, and neither of the linear ones.
#[derive(Clone, Copy, Debug, PartialEq, Eq, Structural)]
pub enum DesignBlendMode {
    PassThrough,
    Normal,
    Multiply,
    Screen,
    Overlay,
    Darken,
    Lighten,
    ColorDodge,
    ColorBurn,
    LinearBurn,
    LinearDodge,
    HardLight,
    SoftLight,
    Difference,
    Exclusion,
    Hue,
    Saturation,
    Color,
    Luminosity,
}

/// The inspector's face of a blend mode.
pub open spec fn blend_shown(mode: BlendMode) -> DesignBlendMode {
    match mode {
        BlendMode::Normal => DesignBlendMode::Normal,
        BlendMode::Multiply => DesignBlendMode::Multiply,
        BlendMode::Screen => DesignBlendMode::Screen,
        BlendMode::Overlay => DesignBlendMode::Overlay,
        BlendMode::Darken => DesignBlendMode::Darken,
        BlendMode::Lighten => DesignBlendMode::Lighten,
        BlendMode::ColorDodge => DesignBlendMode::ColorDodge,
        BlendMode::ColorBurn => DesignBlendMode::ColorBurn,
        BlendMode::HardLight => DesignBlendMode::HardLight,
        BlendMode::SoftLight => DesignBlendMode::SoftLight,
        BlendMode::Difference => DesignBlendMode::Difference,
        BlendMode::Exclusion => DesignBlendMode::Exclusion,
        BlendMode::Hue => DesignBlendMode::Hue,
        BlendMode::Saturation => DesignBlendMode::Saturation,
        BlendMode::Color => DesignBlendMode::Color,
        BlendMode::Luminosity => DesignBlendMode::Luminosity,
    }
}

pub fn design_blend_mode(mode: BlendMode) -> (shown: DesignBlendMode)
    ensures
        shown == blend_shown(mode),
{
    match mode {
        BlendMode::Normal => DesignBlendMode::Normal,
        BlendMode::Multiply => DesignBlendMode::Multiply,
        BlendMode::Screen => DesignBlendMode::Screen,
        BlendMode::Overlay => DesignBlendMode::Overlay,
        BlendMode::Darken => DesignBlendMode::Darken,
        BlendMode::Lighten => DesignBlendMode::Lighten,
        BlendMode::ColorDodge => DesignBlendMode::ColorDodge,
        BlendMode::ColorBurn => DesignBlendMode::ColorBurn,
        BlendMode::HardLight => DesignBlendMode::HardLight,
        BlendMode::SoftLight => DesignBlendMode::SoftLight,
        BlendMode::Difference => DesignBlendMode::Difference,
        BlendMode::Exclusion => DesignBlendMode::Exclusion,
        BlendMode::Hue => DesignBlendMode::Hue,
        BlendMode::Saturation => DesignBlendMode::Saturation,
        BlendMode::Color => DesignBlendMode::Color,
        BlendMode::Luminosity => DesignBlendMode::Luminosity,
    }
}

/// The mode of the document that the inspector shows as this one.
pub fn engine_blend_mode(mode: DesignBlendMode) -> (engine: Option<BlendMode>)
    ensures
        engine == stored_blend(mode),
        match engine {
            Some(engine) => blend_shown(engine) == mode,
            None => forall|engine: BlendMode| #[trigger] blend_shown(engine) != mode,
        },
{
    match mode {
        DesignBlendMode::Normal => Some(BlendMode::Normal),
        DesignBlendMode::Multiply => Some(BlendMode::Multiply),
        DesignBlendMode::Screen => Some(BlendMode::Screen),
        DesignBlendMode::Overlay => Some(BlendMode::Overlay),
        DesignBlendMode::Darken => Some(BlendMode::Darken),
        DesignBlendMode::Lighten => Some(BlendMode::Lighten),
        DesignBlendMode::ColorDodge => Some(BlendMode::ColorDodge),
        DesignBlendMode::ColorBurn => Some(BlendMode::ColorBurn),
        DesignBlendMode::HardLight => Some(BlendMode::HardLight),
        DesignBlendMode::SoftLight => Some(BlendMode::SoftLight),
        DesignBlendMode::Difference => Some(BlendMode::Difference),
        DesignBlendMode::Exclusion => Some(BlendMode::Exclusion),
        DesignBlendMode::Hue => Some(BlendMode::Hue),
        DesignBlendMode::Saturation => Some(BlendMode::Saturation),
        DesignBlendMode::Color => Some(BlendMode::Color),
        DesignBlendMode::Luminosity => Some(BlendMode::Luminosity),
        DesignBlendMode::PassThrough
        | DesignBlendMode::LinearBurn
        | DesignBlendMode::LinearDodge => None,
    }
}

/// The stored mode of an inspector mode, where there is one.
pub open spec fn stored_blend(mode: DesignBlendMode) -> Option<BlendMode> {
    if exists|engine: BlendMode| #[trigger] blend_shown(engine) == mode {
        Some(choose|engine: BlendMode| #[trigger] blend_shown(engine) == mode)
    } else {
        None
    }
}

/// Every stored mode survives being shown and stored again.
pub proof fn lemma_blend_round_trip(mode: BlendMode)
    ensures
        stored_blend(blend_shown(mode)) == Some(mode),
{
    let back = choose|engine: BlendMode| #[trigger] blend_shown(engine) == blend_shown(mode);
    assert(blend_shown(back) == blend_shown(mode));
}

/// Kinds of layers in the inspector.
#[derive(Clone, Copy, Debug, PartialEq, Eq, Structural)]
pub enum DesignKind {
    Frame,
    Group,
    Component,
    Instance,
    Rectangle,
    Ellipse,
    Polygon,
    Star,
    Line,
    Arrow,
    Vector,
    Pen,
    Pencil,
    Text,
    BooleanOperation,
    Image,
    Video,
    Other,
    MultipleSelection,
}

/// The kind of a layer. A group that draws a component is one; outlines recover
/// the shape they were drawn as; what cannot be edited is of another kind.
pub open spec fn design_kind_of(doc: Doc, id: NodeId, data: NodeData) -> DesignKind {
    match data {
        NodeData::Group(group) => if crate::layer_context_ops::draws_component(doc, id) {
            DesignKind::Component
        } else if group.frame_surface {
            DesignKind::Frame
        } else {
            DesignKind::Group
        },
        NodeData::Vector(vector) => match vector.parametric {
            Some(ParametricShape::Arc { .. }) => DesignKind::Ellipse,
            Some(ParametricShape::Star { .. }) => DesignKind::Star,
            Some(ParametricShape::Polygon { .. }) => DesignKind::Polygon,
            None => if vector.path.rectangle {
                DesignKind::Rectangle
            } else {
                DesignKind::Vector
            },
        },
        NodeData::Text(_) => DesignKind::Text,
        NodeData::TextPath { .. } => DesignKind::Text,
        NodeData::Instance(_) => DesignKind::Instance,
        NodeData::Boolean(_) => DesignKind::BooleanOperation,
        NodeData::Bitmap(_) => DesignKind::Image,
        NodeData::Video(_) => DesignKind::Video,
        _ => DesignKind::Other,
    }
}

pub fn design_kind(doc: &Doc, id: NodeId, data: &NodeData) -> (kind: DesignKind)
    ensures
        kind == design_kind_of(*doc, id, *data),
{
    match data {
        NodeData::Group(group) => if is_component_root(doc, id) {
            DesignKind::Component
        } else if group.frame_surface {
            DesignKind::Frame
        } else {
            DesignKind::Group
        },
        NodeData::Vector(vector) => match vector.parametric {
            Some(ParametricShape::Arc { .. }) => DesignKind::Ellipse,
            Some(ParametricShape::Star { .. }) => DesignKind::Star,
            Some(ParametricShape::Polygon { .. }) => DesignKind::Polygon,
            None => if vector.path.rectangle {
                DesignKind::Rectangle
            } else {
                DesignKind::Vector
            },
        },
        NodeData::Text(_) => DesignKind::Text,
        NodeData::TextPath { .. } => DesignKind::Text,
        NodeData::Instance(_) => DesignKind::Instance,
        NodeData::Boolean(_) => DesignKind::BooleanOperation,
        NodeData::Bitmap(_) => DesignKind::Image,
        NodeData::Video(_) => DesignKind::Video,
        _ => DesignKind::Other,
    }
}

/// A kind that gathers layers.
pub open spec fn gathers(kind: DesignKind) -> bool {
    kind is Frame || kind is Group || kind is Component
}

pub fn is_container(kind: DesignKind) -> (r: bool)
    ensures
        r == gathers(kind),
{
    match kind {
        DesignKind::Frame | DesignKind::Group | DesignKind::Component => true,
        _ => false,
    }
}

/// Properties that the inspector edits.
#[derive(Clone, Copy, Debug, PartialEq, Eq, Structural)]
pub enum DesignProperty {
    X,
    Y,
    Width,
    Height,
    Rotation,
    Opacity,
    Visible,
    IsMask,
    MaskType,
    BlendMode,
    CornerRadius,
    CornerRadiusTopLeft,
    CornerRadiusTopRight,
    CornerRadiusBottomRight,
    CornerRadiusBottomLeft,
    CornerSmoothing,
    IndependentCorners,
    PolygonCount,
    StarPointCount,
    StarInnerRadius,
    ArcStartingAngle,
    ArcSweep,
    ArcEndingAngle,
    ArcInnerRadius,
    BooleanOperation,
    ClipContent,
    StrokeWeight,
    StrokeWeightMode,
    StrokeWeightTop,
    StrokeWeightRight,
    StrokeWeightBottom,
    StrokeWeightLeft,
    StrokeAlign,
    StrokeStartCap,
    StrokeEndCap,
    StrokeEndpointCap,
    StrokeDashCap,
    StrokeJoin,
    StrokeMiterAngle,
    StrokeDashMode,
    StrokeDashPattern,
    LayoutMode,
    AutoLayoutAlignment,
    AlignmentX,
    AlignmentY,
    ItemSpacingMode,
    CounterAxisAlignContent,
    StackingOrder,
    IncludeStrokes,
    BaselineAlignment,
    LayoutPositioning,
    LayoutAlignSelf,
    LayoutGrow,
    Gap,
    CounterAxisGap,
    PaddingHorizontal,
    PaddingVertical,
    PaddingShorthand,
    PaddingTop,
    PaddingRight,
    PaddingBottom,
    PaddingLeft,
    Wrap,
    HorizontalSizing,
    VerticalSizing,
    MinWidth,
    MaxWidth,
    MinHeight,
    MaxHeight,
    FontFamily,
    FontSize,
    FontWeight,
    LineHeight,
    LetterSpacing,
    HorizontalTextAlignment,
    VerticalTextAlignment,
    TextDecoration,
    TextResize,
    ComponentProperty(usize),
    /// A property that is shown but not wired.
    Unwired,
}

#[derive(Clone, Copy, Debug, PartialEq, Eq, Structural)]
pub enum StrokeWeightMode {
    All,
    Top,
    Right,
    Bottom,
    Left,
    Custom,
}

#[derive(Clone, Copy, Debug, PartialEq, Eq, Structural)]
pub enum DesignStrokeCap {
    Plain,
    Round,
    Square,
    Arrow,
}

#[derive(Clone, Copy, Debug, PartialEq, Eq, Structural)]
pub enum StrokeDashMode {
    Solid,
    Dashed,
    Custom,
}

#[derive(Clone, Copy, Debug, PartialEq, Eq, Structural)]
pub enum DesignLayoutMode {
    Free,
    Horizontal,
    Vertical,
    Grid,
}

#[derive(Clone, Copy, Debug, PartialEq, Eq, Structural)]
pub enum ItemSpacingMode {
    Fixed,
    Auto,
}

#[derive(Clone, Copy, Debug, PartialEq, Eq, Structural)]
pub enum CounterAxisAlignContent {
    Auto,
    SpaceBetween,
}

#[derive(Clone, Copy, Debug, PartialEq, Eq, Structural)]
pub enum StackingOrder {
    FirstOnTop,
    LastOnTop,
}

#[derive(Clone, Copy, Debug, PartialEq, Eq, Structural)]
pub enum BaselineAlignment {
    Bounds,
    Baseline,
}

#[derive(Clone, Copy, Debug, PartialEq, Eq, Structural)]
pub enum LayoutPositioning {
    InFlow,
    Absolute,
}

#[derive(Clone, Copy, Debug, PartialEq, Eq, Structural)]
pub enum LayoutAlignSelf {
    Inherit,
    Stretch,
}

#[derive(Clone, Copy, Debug, PartialEq, Eq, Structural)]
pub enum SizingMode {
    Fixed,
    Hug,
    Fill,
}

#[derive(Clone, Copy, Debug, PartialEq, Eq, Structural)]
pub enum LineHeight {
    Auto,
    Percent(Scalar),
    Pixels(Scalar),
}

#[derive(Clone, Copy, Debug, PartialEq, Eq, Structural)]
pub enum LetterSpacing {
    Percent(Scalar),
    Pixels(Scalar),
}

#[derive(Clone, Copy, Debug, PartialEq, Eq, Structural)]
pub enum TextDecoration {
    Plain,
    Underline,
    Strikethrough,
}

/// Values that the inspector edits with. Whole numbers come as the number next
/// to them.
#[derive(Debug, PartialEq)]
pub enum DesignValue {
    Number(Scalar),
    Integer(Scalar),
    OptionalNumber(Option<Scalar>),
    NumberList(Arc<Vec<Scalar>>),
    Ratio(Scalar),
    AngleRadians(Scalar),
    Bool(bool),
    Text(String),
    BlendMode(DesignBlendMode),
    MaskType(MaskType),
    BooleanOperation(BooleanOp),
    StrokeWeightMode(StrokeWeightMode),
    StrokeAlign(StrokeAlign),
    StrokeCap(DesignStrokeCap),
    StrokeJoin(StrokeJoin),
    StrokeDashMode(StrokeDashMode),
    LayoutMode(DesignLayoutMode),
    AutoLayoutAlignment { x: u8, y: u8 },
    ItemSpacingMode(ItemSpacingMode),
    CounterAxisAlignContent(CounterAxisAlignContent),
    StackingOrder(StackingOrder),
    BaselineAlignment(BaselineAlignment),
    LayoutPositioning(LayoutPositioning),
    LayoutAlignSelf(LayoutAlignSelf),
    SizingMode(SizingMode),
    LineHeight(LineHeight),
    LetterSpacing(LetterSpacing),
    TextHorizontalAlignment(TextAlign),
    TextVerticalAlignment(TextVAlign),
    TextDecoration(TextDecoration),
    TextResize(TextAutoResize),
}

/// The number that a value holds.
pub open spec fn number_in(value: DesignValue) -> Option<Scalar> {
    match value {
        DesignValue::Number(number) => Some(number),
        DesignValue::Integer(number) => Some(number),
        _ => None,
    }
}

pub fn number_of(value: &DesignValue) -> (number: Option<Scalar>)
    ensures
        number == number_in(*value),
{
    match value {
        DesignValue::Number(number) => Some(*number),
        DesignValue::Integer(number) => Some(*number),
        _ => None,
    }
}

} // verus!
