//! The document model: layers with their data, components, pages and the
//! selection.

use std::sync::Arc;

use serde_json::Value;
use vstd::prelude::*;

use crate::ids::{AssetId, ClipId, ComponentId, ComponentPropId, DocId, NodeId, TrackId, VariableId};
use crate::meta::copy_meta;
use crate::paint::{share, BlendMode, Color, CropWindow, Fill, FillList, ImageFitMode, Quad, Size, Stroke};
use crate::scalar::Scalar;

verus! {

/// Coefficients of an affine map.
#[derive(Clone, Copy, Debug, PartialEq, Eq, Structural)]
pub struct Transform {
    pub m11: Scalar,
    pub m12: Scalar,
    pub m21: Scalar,
    pub m22: Scalar,
    pub tx: Scalar,
    pub ty: Scalar,
}

impl Transform {
    /// Every coefficient is a finite number.
    pub open spec fn finite(self) -> bool {
        &&& self.m11.finite()
        &&& self.m12.finite()
        &&& self.m21.finite()
        &&& self.m22.finite()
        &&& self.tx.finite()
        &&& self.ty.finite()
    }

    pub fn is_finite(self) -> (r: bool)
        ensures
            r == self.finite(),
    {
        self.m11.is_finite() && self.m12.is_finite() && self.m21.is_finite() && self.m22.is_finite()
            && self.tx.is_finite() && self.ty.is_finite()
    }
}

/// Place of a layer among its siblings: a larger key is painted later.
#[derive(Clone, Copy, Debug, PartialEq, Eq, Structural)]
pub struct IndexKey {
    pub rank: i64,
}

impl IndexKey {
    /// The first key.
    #[verifier::allow_in_spec]
    pub fn initial() -> IndexKey
        returns
            (IndexKey { rank: 0 }),
    {
        IndexKey { rank: 0 }
    }

    /// A key right behind another, up to the last one there is.
    #[verifier::allow_in_spec]
    pub fn after(key: IndexKey) -> IndexKey
        returns
            (if key.rank < i64::MAX {
                (IndexKey { rank: (key.rank + 1) as i64 })
            } else {
                key
            }),
    {
        if key.rank < i64::MAX {
            IndexKey { rank: key.rank + 1 }
        } else {
            key
        }
    }

    /// A key right in front of another, down to the first one there is.
    #[verifier::allow_in_spec]
    pub fn before(key: IndexKey) -> IndexKey
        returns
            (if key.rank > i64::MIN {
                (IndexKey { rank: (key.rank - 1) as i64 })
            } else {
                key
            }),
    {
        if key.rank > i64::MIN {
            IndexKey { rank: key.rank - 1 }
        } else {
            key
        }
    }
}

#[derive(Clone, Copy, Debug, PartialEq, Eq, Structural)]
pub struct NodeFlags {
    pub hidden: bool,
    pub locked: bool,
    pub isolated_blend: bool,
}

#[derive(Clone, Copy, Debug, PartialEq, Eq, Structural)]
pub enum MaskType {
    Alpha,
    Vector,
    Luminance,
}

#[derive(Clone, Copy, Debug, PartialEq, Eq, Structural)]
pub enum ShadowKind {
    Drop,
    Inner,
}

#[derive(Clone, Copy, Debug, PartialEq, Eq, Structural)]
pub struct Shadow {
    pub kind: ShadowKind,
    pub color: Color,
    pub blur: Scalar,
    pub spread: Scalar,
    pub offset_x: Scalar,
    pub offset_y: Scalar,
    pub show_behind_node: bool,
}

#[derive(Clone, Copy, Debug, PartialEq, Eq, Structural)]
pub enum BlurKind {
    Layer,
    Background,
}

#[derive(Clone, Copy, Debug, PartialEq, Eq, Structural)]
pub struct Blur {
    pub kind: BlurKind,
    pub radius: Scalar,
}

#[derive(Clone, Copy, Debug, PartialEq, Eq, Structural)]
pub enum LayoutMode {
    Horizontal,
    Vertical,
}

#[derive(Clone, Copy, Debug, PartialEq, Eq, Structural)]
pub enum AxisSizing {
    Fixed,
    Hug,
}

#[derive(Clone, Copy, Debug, PartialEq, Eq, Structural)]
pub enum PrimaryAlign {
    Start,
    Center,
    End,
    SpaceBetween,
    SpaceEvenly,
}

#[derive(Clone, Copy, Debug, PartialEq, Eq, Structural)]
pub enum CounterAlign {
    Start,
    Center,
    End,
    Stretch,
    Baseline,
}

/// How a frame lays out its children.
#[derive(Clone, Copy, Debug, PartialEq, Eq, Structural)]
pub struct AutoLayout {
    pub mode: LayoutMode,
    pub gap_h: Scalar,
    pub gap_v: Scalar,
    pub wrap: bool,
    pub primary_sizing: AxisSizing,
    pub counter_sizing: AxisSizing,
    pub primary_align: PrimaryAlign,
    pub counter_align: CounterAlign,
    pub padding: Quad,
    pub min_width: Option<Scalar>,
    pub max_width: Option<Scalar>,
    pub min_height: Option<Scalar>,
    pub max_height: Option<Scalar>,
    pub reverse_z: bool,
    pub include_strokes: bool,
    pub counter_auto_spacing: bool,
    pub child_layout: bool,
}

impl AutoLayout {
    /// A layout along one axis with nothing else set.
    #[verifier::allow_in_spec]
    pub fn plain(mode: LayoutMode) -> AutoLayout
        returns
            (AutoLayout {
                mode: mode,
                gap_h: Scalar { bits: 0 },
                gap_v: Scalar { bits: 0 },
                wrap: false,
                primary_sizing: AxisSizing::Fixed,
                counter_sizing: AxisSizing::Fixed,
                primary_align: PrimaryAlign::Start,
                counter_align: CounterAlign::Start,
                padding: Quad {
                    first: Scalar { bits: 0 },
                    second: Scalar { bits: 0 },
                    third: Scalar { bits: 0 },
                    fourth: Scalar { bits: 0 },
                },
                min_width: None,
                max_width: None,
                min_height: None,
                max_height: None,
                reverse_z: false,
                include_strokes: false,
                counter_auto_spacing: false,
                child_layout: true,
            }),
    {
        AutoLayout {
            mode: mode,
            gap_h: Scalar { bits: 0 },
            gap_v: Scalar { bits: 0 },
            wrap: false,
            primary_sizing: AxisSizing::Fixed,
            counter_sizing: AxisSizing::Fixed,
            primary_align: PrimaryAlign::Start,
            counter_align: CounterAlign::Start,
            padding: Quad {
                first: Scalar { bits: 0 },
                second: Scalar { bits: 0 },
                third: Scalar { bits: 0 },
                fourth: Scalar { bits: 0 },
            },
            min_width: None,
            max_width: None,
            min_height: None,
            max_height: None,
            reverse_z: false,
            include_strokes: false,
            counter_auto_spacing: false,
            child_layout: true,
        }
    }
}

/// What a layer says to the layout of its parent.
#[derive(Clone, Copy, Debug, PartialEq, Eq, Structural)]
pub struct LayoutChild {
    pub grow: Scalar,
    pub absolute: bool,
    pub align_self: Option<CounterAlign>,
}

impl LayoutChild {
    #[verifier::allow_in_spec]
    pub fn plain() -> LayoutChild
        returns
            (LayoutChild { grow: Scalar { bits: 0 }, absolute: false, align_self: None }),
    {
        LayoutChild { grow: Scalar { bits: 0 }, absolute: false, align_self: None }
    }

    /// Says nothing that a layer without it would not say.
    pub open spec fn trivial(self) -> bool {
        self.grow.same(Scalar { bits: 0 }) && !self.absolute && self.align_self is None
    }

    pub fn is_trivial(self) -> (r: bool)
        ensures
            r == self.trivial(),
    {
        self.grow.equals(Scalar { bits: 0 }) && !self.absolute && self.align_self.is_none()
    }
}

#[derive(Debug, PartialEq)]
pub struct GroupNode {
    pub background: Option<Fill>,
    pub background_fills: FillList,
    pub strokes: Arc<Vec<Stroke>>,
    pub clip_size: Option<Size>,
    pub local_size: Option<Size>,
    pub corner_radius: Option<Scalar>,
    pub corner_radii: Option<Quad>,
    pub corner_smoothing: Option<Scalar>,
    pub auto_layout: Option<AutoLayout>,
    /// Paints or clips as a frame rather than only gathering layers.
    pub frame_surface: bool,
}

pub fn copy_fill_option(fill: &Option<Fill>) -> (r: Option<Fill>)
    ensures
        r == *fill,
{
    match fill {
        Some(fill) => Some(fill.copy()),
        None => None,
    }
}

impl GroupNode {
    pub fn copy(&self) -> (r: Self)
        ensures
            r == *self,
    {
        GroupNode {
            background: copy_fill_option(&self.background),
            background_fills: self.background_fills.copy(),
            strokes: share(&self.strokes),
            clip_size: self.clip_size,
            local_size: self.local_size,
            corner_radius: self.corner_radius,
            corner_radii: self.corner_radii,
            corner_smoothing: self.corner_smoothing,
            auto_layout: self.auto_layout,
            frame_surface: self.frame_surface,
        }
    }

    /// A group that only gathers layers.
    pub fn plain() -> (r: GroupNode)
        ensures
            r.background is None,
            r.background_fills@.len() == 0,
            r.strokes@.len() == 0,
            r.clip_size is None,
            r.local_size is None,
            r.corner_radius is None,
            r.corner_radii is None,
            r.corner_smoothing is None,
            r.auto_layout is None,
            !r.frame_surface,
    {
        GroupNode {
            background: None,
            background_fills: FillList::new(),
            strokes: Arc::new(Vec::new()),
            clip_size: None,
            local_size: None,
            corner_radius: None,
            corner_radii: None,
            corner_smoothing: None,
            auto_layout: None,
            frame_surface: false,
        }
    }

    /// The group's paints: the background first, then the further fills.
    pub open spec fn paints(self) -> Seq<Fill> {
        match self.background {
            Some(fill) => seq![fill] + self.background_fills@,
            None => self.background_fills@,
        }
    }
}

#[derive(Clone, Copy, Debug, PartialEq, Eq, Structural)]
pub enum PathSegment {
    Move { x: Scalar, y: Scalar },
    Line { x: Scalar, y: Scalar },
    Quad { cx: Scalar, cy: Scalar, x: Scalar, y: Scalar },
    Cubic { ax: Scalar, ay: Scalar, bx: Scalar, by: Scalar, x: Scalar, y: Scalar },
    Close,
}

/// An outline; `rectangle` says that it is an axis-aligned box.
#[derive(Debug, PartialEq)]
pub struct PathData {
    pub segments: Arc<Vec<PathSegment>>,
    pub rectangle: bool,
}

impl PathData {
    pub fn copy(&self) -> (r: Self)
        ensures
            r == *self,
    {
        PathData { segments: share(&self.segments), rectangle: self.rectangle }
    }
}

#[derive(Clone, Copy, Debug, PartialEq, Eq, Structural)]
pub enum ParametricShape {
    Polygon { points: u32 },
    Star { points: u32, inner_ratio: Scalar },
    Arc { start_rad: Scalar, sweep_rad: Scalar, inner_ratio: Scalar },
}

#[derive(Debug, PartialEq)]
pub struct VectorNode {
    pub path: PathData,
    pub fills: FillList,
    pub strokes: Arc<Vec<Stroke>>,
    pub corner_radius: Option<Scalar>,
    pub corner_radii: Option<Quad>,
    pub corner_smoothing: Option<Scalar>,
    pub parametric: Option<ParametricShape>,
    pub local_size: Option<Size>,
}

impl VectorNode {
    pub fn copy(&self) -> (r: Self)
        ensures
            r == *self,
    {
        VectorNode {
            path: self.path.copy(),
            fills: self.fills.copy(),
            strokes: share(&self.strokes),
            corner_radius: self.corner_radius,
            corner_radii: self.corner_radii,
            corner_smoothing: self.corner_smoothing,
            parametric: self.parametric,
            local_size: self.local_size,
        }
    }

    /// A bare outline with the given paints and strokes.
    pub fn outlined(path: PathData, fills: FillList, strokes: Arc<Vec<Stroke>>) -> (r: VectorNode)
        ensures
            r.path == path,
            r.fills == fills,
            r.strokes == strokes,
            r.corner_radius is None,
            r.corner_radii is None,
            r.corner_smoothing is None,
            r.parametric is None,
            r.local_size is None,
    {
        VectorNode {
            path,
            fills,
            strokes,
            corner_radius: None,
            corner_radii: None,
            corner_smoothing: None,
            parametric: None,
            local_size: None,
        }
    }
}

#[derive(Debug, PartialEq)]
pub struct TextStyle {
    pub font_family: String,
    pub italic: bool,
    pub weight: u16,
    pub size_px: Scalar,
    pub line_height: Scalar,
    pub line_height_auto_percent: Option<Scalar>,
    pub letter_spacing: Scalar,
    pub underline: bool,
    pub strikethrough: bool,
    pub color: Color,
}

impl TextStyle {
    pub fn copy(&self) -> (r: Self)
        ensures
            r == *self,
    {
        TextStyle {
            font_family: self.font_family.clone(),
            italic: self.italic,
            weight: self.weight,
            size_px: self.size_px,
            line_height: self.line_height,
            line_height_auto_percent: self.line_height_auto_percent,
            letter_spacing: self.letter_spacing,
            underline: self.underline,
            strikethrough: self.strikethrough,
            color: self.color,
        }
    }
}

/// A stretch of characters with a style of its own.
#[derive(Debug, PartialEq)]
pub struct StyleRun {
    pub start: usize,
    pub end: usize,
    pub style: TextStyle,
}

impl StyleRun {
    pub fn copy(&self) -> (r: Self)
        ensures
            r == *self,
    {
        StyleRun { start: self.start, end: self.end, style: self.style.copy() }
    }
}

#[derive(Clone, Copy, Debug, PartialEq, Eq, Structural)]
pub enum TextAlign {
    Left,
    Center,
    Right,
    Justify,
}

#[derive(Clone, Copy, Debug, PartialEq, Eq, Structural)]
pub enum TextVAlign {
    Top,
    Center,
    Bottom,
}

#[derive(Clone, Copy, Debug, PartialEq, Eq, Structural)]
pub enum TextAutoResize {
    Fixed,
    WidthAndHeight,
    Height,
}

#[derive(Debug, PartialEq)]
pub struct TextNode {
    pub content: String,
    pub style: TextStyle,
    pub style_runs: Arc<Vec<StyleRun>>,
    pub align: TextAlign,
    pub vertical_align: TextVAlign,
    pub auto_resize: TextAutoResize,
    pub local_size: Size,
}

impl TextNode {
    pub fn copy(&self) -> (r: Self)
        ensures
            r == *self,
    {
        TextNode {
            content: self.content.clone(),
            style: self.style.copy(),
            style_runs: share(&self.style_runs),
            align: self.align,
            vertical_align: self.vertical_align,
            auto_resize: self.auto_resize,
            local_size: self.local_size,
        }
    }
}

/// Pixel size of a picture or a film.
#[derive(Clone, Copy, Debug, PartialEq, Eq, Structural)]
pub struct PixelSize {
    pub width: u32,
    pub height: u32,
}

#[derive(Clone, Copy, Debug, PartialEq, Eq, Structural)]
pub struct BitmapNode {
    pub asset: AssetId,
    pub natural_size: PixelSize,
    pub local_size: Size,
    pub crop: Option<CropWindow>,
    pub fit: ImageFitMode,
    pub tint: Option<Color>,
}

#[derive(Clone, Copy, Debug, PartialEq, Eq, Structural)]
pub struct VideoNode {
    pub asset: AssetId,
    pub natural_size: PixelSize,
    pub start_us: u64,
    pub end_us: u64,
    pub poster: Option<AssetId>,
    pub poster_frame_us: Option<u64>,
    pub local_size: Size,
}

#[derive(Clone, Copy, Debug, PartialEq, Eq, Structural)]
pub enum BooleanOp {
    Union,
    Subtract,
    Intersect,
    Exclude,
}

#[derive(Debug, PartialEq)]
pub struct BooleanNode {
    pub op: BooleanOp,
    pub fills: FillList,
    pub strokes: Arc<Vec<Stroke>>,
}

impl BooleanNode {
    pub fn copy(&self) -> (r: Self)
        ensures
            r == *self,
    {
        BooleanNode { op: self.op, fills: self.fills.copy(), strokes: share(&self.strokes) }
    }
}

#[derive(Clone, Copy, Debug, PartialEq, Eq, Structural)]
pub enum BoundProp {
    Opacity,
    Visible,
    CornerRadius,
    TextContent,
    FillColor { index: usize },
    StrokeColor { index: usize },
}

#[allow(inconsistent_fields)]
#[derive(Debug, PartialEq)]
pub enum OverrideValue {
    Text { value: String },
    Fills { fills: FillList },
    Visible { value: bool },
}

impl OverrideValue {
    pub fn copy(&self) -> (r: Self)
        ensures
            r == *self,
    {
        match self {
            OverrideValue::Text { value } => OverrideValue::Text { value: value.clone() },
            OverrideValue::Fills { fills } => OverrideValue::Fills { fills: fills.copy() },
            OverrideValue::Visible { value } => OverrideValue::Visible { value: *value },
        }
    }
}

/// One sparse change that an instance makes to a layer of its main component.
/// The path names the layer by the ids on the way down, the root left out.
#[derive(Debug, PartialEq)]
pub struct Override {
    pub target_path: Arc<Vec<NodeId>>,
    pub target_prop: BoundProp,
    pub value: OverrideValue,
}

impl Override {
    pub fn copy(&self) -> (r: Self)
        ensures
            r == *self,
    {
        Override {
            target_path: share(&self.target_path),
            target_prop: self.target_prop,
            value: self.value.copy(),
        }
    }
}

#[allow(inconsistent_fields)]
#[derive(Debug, PartialEq)]
pub enum VarValue {
    Boolean { value: bool },
    Float { value: Scalar },
    Text { value: String },
    Color { value: Color },
}

#[derive(Debug, PartialEq)]
pub struct PropValue {
    pub prop: ComponentPropId,
    pub value: VarValue,
}

#[derive(Debug, PartialEq)]
pub struct InstanceNode {
    pub component: ComponentId,
    pub overrides: Arc<Vec<Override>>,
    pub prop_values: Arc<Vec<PropValue>>,
    /// Layers whose resolved form came baked with the file.
    pub derived: Arc<Vec<NodeId>>,
    pub local_size: Size,
}

impl InstanceNode {
    pub fn copy(&self) -> (r: Self)
        ensures
            r == *self,
    {
        InstanceNode {
            component: self.component,
            overrides: share(&self.overrides),
            prop_values: share(&self.prop_values),
            derived: share(&self.derived),
            local_size: self.local_size,
        }
    }
}

#[derive(Debug, PartialEq)]
pub enum NodeData {
    Group(GroupNode),
    Vector(VectorNode),
    Text(TextNode),
    TextPath { content: String },
    Bitmap(BitmapNode),
    Video(VideoNode),
    Instance(InstanceNode),
    Boolean(BooleanNode),
    Audio,
    NodeGraph,
    Model3d,
    AiArtifact,
    Embed,
}

impl NodeData {
    pub fn copy(&self) -> (r: Self)
        ensures
            r == *self,
    {
        match self {
            NodeData::Group(group) => NodeData::Group(group.copy()),
            NodeData::Vector(vector) => NodeData::Vector(vector.copy()),
            NodeData::Text(text) => NodeData::Text(text.copy()),
            NodeData::TextPath { content } => NodeData::TextPath { content: content.clone() },
            NodeData::Bitmap(bitmap) => NodeData::Bitmap(*bitmap),
            NodeData::Video(video) => NodeData::Video(*video),
            NodeData::Instance(instance) => NodeData::Instance(instance.copy()),
            NodeData::Boolean(boolean) => NodeData::Boolean(boolean.copy()),
            NodeData::Audio => NodeData::Audio,
            NodeData::NodeGraph => NodeData::NodeGraph,
            NodeData::Model3d => NodeData::Model3d,
            NodeData::AiArtifact => NodeData::AiArtifact,
            NodeData::Embed => NodeData::Embed,
        }
    }
}

#[derive(Clone, Copy, Debug, PartialEq, Eq, Structural)]
pub struct Binding {
    pub prop: BoundProp,
    pub variable: VariableId,
}

#[derive(Debug, PartialEq)]
pub struct CanvasNode {
    pub id: NodeId,
    pub parent: Option<NodeId>,
    pub index: IndexKey,
    pub name: String,
    pub flags: NodeFlags,
    pub transform: Transform,
    pub opacity: Scalar,
    pub blend_mode: BlendMode,
    pub is_mask: bool,
    pub mask_type: MaskType,
    pub effects: Arc<Vec<Shadow>>,
    pub blurs: Arc<Vec<Blur>>,
    pub layout_child: Option<LayoutChild>,
    pub bindings: Arc<Vec<Binding>>,
    pub meta: Value,
    pub data: Arc<NodeData>,
}

impl CanvasNode {
    pub fn copy(&self) -> (r: Self)
        ensures
            r == *self,
    {
        CanvasNode {
            id: self.id,
            parent: self.parent,
            index: self.index,
            name: self.name.clone(),
            flags: self.flags,
            transform: self.transform,
            opacity: self.opacity,
            blend_mode: self.blend_mode,
            is_mask: self.is_mask,
            mask_type: self.mask_type,
            effects: share(&self.effects),
            blurs: share(&self.blurs),
            layout_child: self.layout_child,
            bindings: share(&self.bindings),
            meta: copy_meta(&self.meta),
            data: share(&self.data),
        }
    }
}

#[derive(Clone, Copy, Debug, PartialEq, Eq, Structural)]
pub enum ComponentPropKind {
    Bool,
    Number,
    Text,
    Color,
    InstanceSwap,
    Variant,
}

#[derive(Clone, Copy, Debug, PartialEq, Eq, Structural)]
pub struct ComponentPropDef {
    pub id: ComponentPropId,
    pub kind: ComponentPropKind,
}

#[derive(Debug, PartialEq)]
pub struct ComponentDef {
    pub id: ComponentId,
    pub root: NodeId,
    pub name: String,
    pub props: Arc<Vec<ComponentPropDef>>,
}

impl ComponentDef {
    pub fn copy(&self) -> (r: Self)
        ensures
            r == *self,
    {
        ComponentDef {
            id: self.id,
            root: self.root,
            name: self.name.clone(),
            props: share(&self.props),
        }
    }
}

#[derive(Debug, PartialEq)]
pub struct ComponentSet {
    pub id: ComponentId,
    pub name: String,
    pub members: Arc<Vec<ComponentId>>,
    pub default_variant: ComponentId,
}

impl ComponentSet {
    pub fn copy(&self) -> (r: Self)
        ensures
            r == *self,
    {
        ComponentSet {
            id: self.id,
            name: self.name.clone(),
            members: share(&self.members),
            default_variant: self.default_variant,
        }
    }
}

/// A track of an animation clip and the layer that it moves.
#[derive(Clone, Copy, Debug, PartialEq, Eq, Structural)]
pub struct AnimationTrack {
    pub clip: ClipId,
    pub id: TrackId,
    pub node: NodeId,
}

#[derive(Debug, PartialEq)]
pub struct Doc {
    pub id: DocId,
    pub nodes: Vec<CanvasNode>,
    pub pages: Vec<NodeId>,
    pub active_page: Option<NodeId>,
    pub selection: Vec<NodeId>,
    pub components: Vec<ComponentDef>,
    pub sets: Vec<ComponentSet>,
    pub tracks: Vec<AnimationTrack>,
}

} // verus!
