//! Paints of the document: solid colors, gradients, media, patterns, shaders,
//! the strokes that carry them, and the list that a layer keeps them in.

use std::sync::Arc;

use smallvec::SmallVec;
use vstd::prelude::*;

use crate::ids::{AssetId, NodeId};
use crate::scalar::Scalar;

verus! {

/// `Arc::clone`: another handle to the same value.
#[verifier::external_body]
pub(crate) fn share<T>(value: &Arc<T>) -> (r: Arc<T>)
    ensures
        r == *value,
{
    Arc::clone(value)
}

#[derive(Clone, Copy, Debug, PartialEq, Eq, Structural)]
pub struct Color {
    pub r: u8,
    pub g: u8,
    pub b: u8,
    pub a: u8,
}

#[derive(Clone, Copy, Debug, PartialEq, Eq, Structural)]
pub enum BlendMode {
    Normal,
    Multiply,
    Screen,
    Overlay,
    Darken,
    Lighten,
    ColorDodge,
    ColorBurn,
    HardLight,
    SoftLight,
    Difference,
    Exclusion,
    Hue,
    Saturation,
    Color,
    Luminosity,
}

#[derive(Clone, Copy, Debug, PartialEq, Eq, Structural)]
pub struct Point {
    pub x: Scalar,
    pub y: Scalar,
}

#[derive(Clone, Copy, Debug, PartialEq, Eq, Structural)]
pub struct Size {
    pub width: Scalar,
    pub height: Scalar,
}

/// Ends of a gradient's two axes.
#[derive(Clone, Copy, Debug, PartialEq, Eq, Structural)]
pub struct Handles {
    pub primary: Point,
    pub secondary: Point,
}

#[derive(Clone, Copy, Debug, PartialEq, Eq, Structural)]
pub struct GradientStop {
    pub position: Scalar,
    pub color: Color,
}

/// Where a gradient runs; the variant is the gradient's kind.
#[derive(Clone, Copy, Debug, PartialEq, Eq, Structural)]
pub enum GradientGeometry {
    Linear { start: Point, end: Point },
    Radial { center: Point, radius: Scalar, handles: Option<Handles> },
    Angular { center: Point, start_angle: Scalar },
    Diamond { center: Point, radius: Scalar, handles: Option<Handles> },
}

#[derive(Debug, PartialEq)]
pub struct Gradient {
    pub geometry: GradientGeometry,
    pub stops: Arc<Vec<GradientStop>>,
}

impl Gradient {
    pub fn copy(&self) -> (r: Self)
        ensures
            r == *self,
    {
        Gradient { geometry: self.geometry, stops: share(&self.stops) }
    }
}

#[derive(Clone, Copy, Debug, PartialEq, Eq, Structural)]
pub enum ImageFitMode {
    Fill,
    Fit,
    Stretch,
    Tile,
}

/// A window into an image: origin and size, as fractions of the image.
#[derive(Clone, Copy, Debug, PartialEq, Eq, Structural)]
pub struct CropWindow {
    pub x: Scalar,
    pub y: Scalar,
    pub width: Scalar,
    pub height: Scalar,
}

#[derive(Clone, Copy, Debug, PartialEq, Eq, Structural)]
pub struct ImageAdjust {
    pub exposure: Scalar,
    pub contrast: Scalar,
    pub saturation: Scalar,
    pub temperature: Scalar,
    pub tint: Scalar,
    pub highlights: Scalar,
    pub shadows: Scalar,
}

impl ImageAdjust {
    /// No adjustment.
    #[verifier::allow_in_spec]
    pub fn none() -> ImageAdjust
        returns
            (ImageAdjust {
                exposure: Scalar { bits: 0 },
                contrast: Scalar { bits: 0 },
                saturation: Scalar { bits: 0 },
                temperature: Scalar { bits: 0 },
                tint: Scalar { bits: 0 },
                highlights: Scalar { bits: 0 },
                shadows: Scalar { bits: 0 },
            }),
    {
        ImageAdjust {
            exposure: Scalar { bits: 0 },
            contrast: Scalar { bits: 0 },
            saturation: Scalar { bits: 0 },
            temperature: Scalar { bits: 0 },
            tint: Scalar { bits: 0 },
            highlights: Scalar { bits: 0 },
            shadows: Scalar { bits: 0 },
        }
    }
}

#[derive(Clone, Copy, Debug, PartialEq, Eq, Structural)]
pub enum PatternTileType {
    Rectangular,
    HorizontalHexagonal,
    VerticalHexagonal,
}

#[derive(Clone, Copy, Debug, PartialEq, Eq, Structural)]
pub enum PatternHorizontalAlignment {
    Start,
    Center,
    End,
}

#[derive(Clone, Copy, Debug, PartialEq, Eq, Structural)]
pub struct PatternFill {
    pub source_node_id: NodeId,
    pub tile_type: PatternTileType,
    pub scaling_factor: Scalar,
    pub spacing: Point,
    pub horizontal_alignment: PatternHorizontalAlignment,
}

#[derive(Clone, Copy, Debug, PartialEq, Eq, Structural)]
pub struct VideoFill {
    pub asset: AssetId,
    pub poster: Option<AssetId>,
    pub mode: ImageFitMode,
    pub crop: Option<CropWindow>,
    pub scale: Option<Scalar>,
    pub rotation: Option<Scalar>,
    pub adjust: ImageAdjust,
}

#[derive(Debug, PartialEq)]
pub struct ShaderGradientStop {
    pub position: Scalar,
    pub color: Color,
    pub variable_id: Option<String>,
}

#[allow(inconsistent_fields)]
#[derive(Debug, PartialEq)]
pub enum ShaderPropertyValue {
    Boolean(bool),
    Text(String),
    Number(Scalar),
    AssetId(String),
    Color(Color),
    Point(Point),
    Line { start: Point, end: Point },
    Circle { center: Point, radius: Scalar },
    CirclePoint { center: Point, radius: Scalar, angle: Scalar },
    ColorPoint { point: Point, color: Color, variable_id: Option<String> },
    Gradient(Arc<Vec<ShaderGradientStop>>),
    VariableAlias { variable_id: String },
    Opaque { kind_name: String, payload: String },
}

pub fn copy_text_option(text: &Option<String>) -> (r: Option<String>)
    ensures
        r == *text,
{
    match text {
        Some(text) => Some(text.clone()),
        None => None,
    }
}

impl ShaderPropertyValue {
    pub fn copy(&self) -> (r: Self)
        ensures
            r == *self,
    {
        match self {
            ShaderPropertyValue::Boolean(value) => ShaderPropertyValue::Boolean(*value),
            ShaderPropertyValue::Text(value) => ShaderPropertyValue::Text(value.clone()),
            ShaderPropertyValue::Number(value) => ShaderPropertyValue::Number(*value),
            ShaderPropertyValue::AssetId(value) => ShaderPropertyValue::AssetId(value.clone()),
            ShaderPropertyValue::Color(value) => ShaderPropertyValue::Color(*value),
            ShaderPropertyValue::Point(value) => ShaderPropertyValue::Point(*value),
            ShaderPropertyValue::Line { start, end } => ShaderPropertyValue::Line {
                start: *start,
                end: *end,
            },
            ShaderPropertyValue::Circle { center, radius } => ShaderPropertyValue::Circle {
                center: *center,
                radius: *radius,
            },
            ShaderPropertyValue::CirclePoint { center, radius, angle } =>
                ShaderPropertyValue::CirclePoint { center: *center, radius: *radius, angle: *angle },
            ShaderPropertyValue::ColorPoint { point, color, variable_id } =>
                ShaderPropertyValue::ColorPoint {
                    point: *point,
                    color: *color,
                    variable_id: copy_text_option(variable_id),
                },
            ShaderPropertyValue::Gradient(stops) => ShaderPropertyValue::Gradient(share(stops)),
            ShaderPropertyValue::VariableAlias { variable_id } =>
                ShaderPropertyValue::VariableAlias { variable_id: variable_id.clone() },
            ShaderPropertyValue::Opaque { kind_name, payload } => ShaderPropertyValue::Opaque {
                kind_name: kind_name.clone(),
                payload: payload.clone(),
            },
        }
    }
}

#[derive(Debug, PartialEq)]
pub struct ShaderPropertyAssignment {
    pub definition_id: String,
    pub value: ShaderPropertyValue,
}

impl ShaderPropertyAssignment {
    pub fn copy(&self) -> (r: Self)
        ensures
            r == *self,
    {
        ShaderPropertyAssignment {
            definition_id: self.definition_id.clone(),
            value: self.value.copy(),
        }
    }
}

#[derive(Debug, PartialEq)]
pub struct ShaderFill {
    pub shader_id: String,
    pub name: String,
    pub properties: Arc<Vec<ShaderPropertyAssignment>>,
}

impl ShaderFill {
    pub fn copy(&self) -> (r: Self)
        ensures
            r == *self,
    {
        ShaderFill {
            shader_id: self.shader_id.clone(),
            name: self.name.clone(),
            properties: share(&self.properties),
        }
    }
}

#[derive(Debug, PartialEq)]
pub enum Fill {
    Solid { color: Color, blend: BlendMode },
    Gradient { gradient: Gradient, blend: BlendMode },
    Image {
        asset: AssetId,
        mode: ImageFitMode,
        opacity: Scalar,
        crop: Option<CropWindow>,
        scale: Option<Scalar>,
        rotation: Option<Scalar>,
        blend: BlendMode,
        adjust: ImageAdjust,
    },
    Pattern { pattern: PatternFill, opacity: Scalar, blend: BlendMode },
    Video { video: VideoFill, opacity: Scalar, blend: BlendMode },
    Shader { shader: ShaderFill, opacity: Scalar, blend: BlendMode },
}

impl Clone for Fill {
    fn clone(&self) -> (r: Self)
        ensures
            r == *self,
    {
        self.copy()
    }
}

impl Fill {
    pub fn copy(&self) -> (r: Self)
        ensures
            r == *self,
    {
        match self {
            Fill::Solid { color, blend } => Fill::Solid { color: *color, blend: *blend },
            Fill::Gradient { gradient, blend } => Fill::Gradient {
                gradient: gradient.copy(),
                blend: *blend,
            },
            Fill::Image { asset, mode, opacity, crop, scale, rotation, blend, adjust } =>
                Fill::Image {
                    asset: *asset,
                    mode: *mode,
                    opacity: *opacity,
                    crop: *crop,
                    scale: *scale,
                    rotation: *rotation,
                    blend: *blend,
                    adjust: *adjust,
                },
            Fill::Pattern { pattern, opacity, blend } => Fill::Pattern {
                pattern: *pattern,
                opacity: *opacity,
                blend: *blend,
            },
            Fill::Video { video, opacity, blend } => Fill::Video {
                video: *video,
                opacity: *opacity,
                blend: *blend,
            },
            Fill::Shader { shader, opacity, blend } => Fill::Shader {
                shader: shader.copy(),
                opacity: *opacity,
                blend: *blend,
            },
        }
    }

    /// An opaque way of painting one color.
    pub open spec fn solid_spec(color: Color) -> Fill {
        Fill::Solid { color: color, blend: BlendMode::Normal }
    }

    pub fn solid(color: Color) -> (r: Fill)
        ensures
            r == Fill::solid_spec(color),
    {
        Fill::Solid { color: color, blend: BlendMode::Normal }
    }

    pub open spec fn blend_of(self) -> BlendMode {
        match self {
            Fill::Solid { blend, .. } => blend,
            Fill::Gradient { blend, .. } => blend,
            Fill::Image { blend, .. } => blend,
            Fill::Pattern { blend, .. } => blend,
            Fill::Video { blend, .. } => blend,
            Fill::Shader { blend, .. } => blend,
        }
    }

    /// The blend mode that a paint is laid down with.
    pub fn paint_blend(&self) -> (r: BlendMode)
        ensures
            r == self.blend_of(),
    {
        match self {
            Fill::Solid { blend, .. } => *blend,
            Fill::Gradient { blend, .. } => *blend,
            Fill::Image { blend, .. } => *blend,
            Fill::Pattern { blend, .. } => *blend,
            Fill::Video { blend, .. } => *blend,
            Fill::Shader { blend, .. } => *blend,
        }
    }

    /// The same paint laid down with another blend mode.
    pub open spec fn blended(self, blend: BlendMode) -> Fill {
        match self {
            Fill::Solid { color, .. } => Fill::Solid { color, blend },
            Fill::Gradient { gradient, .. } => Fill::Gradient { gradient, blend },
            Fill::Image { asset, mode, opacity, crop, scale, rotation, adjust, .. } => Fill::Image {
                asset,
                mode,
                opacity,
                crop,
                scale,
                rotation,
                blend,
                adjust,
            },
            Fill::Pattern { pattern, opacity, .. } => Fill::Pattern { pattern, opacity, blend },
            Fill::Video { video, opacity, .. } => Fill::Video { video, opacity, blend },
            Fill::Shader { shader, opacity, .. } => Fill::Shader { shader, opacity, blend },
        }
    }

    pub fn with_blend(&self, new_blend: BlendMode) -> (r: Fill)
        ensures
            r == self.blended(new_blend),
    {
        match self.copy() {
            Fill::Solid { color, .. } => Fill::Solid { color, blend: new_blend },
            Fill::Gradient { gradient, .. } => Fill::Gradient { gradient, blend: new_blend },
            Fill::Image { asset, mode, opacity, crop, scale, rotation, adjust, .. } => Fill::Image {
                asset,
                mode,
                opacity,
                crop,
                scale,
                rotation,
                blend: new_blend,
                adjust,
            },
            Fill::Pattern { pattern, opacity, .. } => Fill::Pattern {
                pattern,
                opacity,
                blend: new_blend,
            },
            Fill::Video { video, opacity, .. } => Fill::Video { video, opacity, blend: new_blend },
            Fill::Shader { shader, opacity, .. } => Fill::Shader {
                shader,
                opacity,
                blend: new_blend,
            },
        }
    }
}

#[derive(Clone, Copy, Debug, PartialEq, Eq, Structural)]
pub enum StrokeAlign {
    Center,
    Inside,
    Outside,
}

#[derive(Clone, Copy, Debug, PartialEq, Eq, Structural)]
pub enum StrokeCap {
    Butt,
    Round,
    Square,
}

#[derive(Clone, Copy, Debug, PartialEq, Eq, Structural)]
pub enum StrokeJoin {
    Miter,
    Round,
    Bevel,
}

/// Four numbers that go round a box: top, right, bottom, left for sides and
/// paddings; top left, top right, bottom right, bottom left for corners.
#[derive(Clone, Copy, Debug, PartialEq, Eq, Structural)]
pub struct Quad {
    pub first: Scalar,
    pub second: Scalar,
    pub third: Scalar,
    pub fourth: Scalar,
}

impl Quad {
    #[verifier::allow_in_spec]
    pub fn all(value: Scalar) -> Quad
        returns
            (Quad { first: value, second: value, third: value, fourth: value }),
    {
        Quad { first: value, second: value, third: value, fourth: value }
    }

    /// The value at place 0, 1, 2, or else the last.
    #[verifier::allow_in_spec]
    pub fn at(self, place: u8) -> Scalar
        returns
            (if place == 0 {
                self.first
            } else if place == 1 {
                self.second
            } else if place == 2 {
                self.third
            } else {
                self.fourth
            }),
    {
        if place == 0 {
            self.first
        } else if place == 1 {
            self.second
        } else if place == 2 {
            self.third
        } else {
            self.fourth
        }
    }

    /// The same four numbers with one replaced.
    #[verifier::allow_in_spec]
    pub fn with(self, place: u8, value: Scalar) -> Quad
        returns
            (if place == 0 {
                (Quad { first: value, ..self })
            } else if place == 1 {
                (Quad { second: value, ..self })
            } else if place == 2 {
                (Quad { third: value, ..self })
            } else {
                (Quad { fourth: value, ..self })
            }),
    {
        if place == 0 {
            Quad { first: value, ..self }
        } else if place == 1 {
            Quad { second: value, ..self }
        } else if place == 2 {
            Quad { third: value, ..self }
        } else {
            Quad { fourth: value, ..self }
        }
    }
}

#[derive(Debug, PartialEq)]
pub struct Stroke {
    pub paint: Fill,
    pub width: Scalar,
    pub align: StrokeAlign,
    pub cap: StrokeCap,
    pub join: StrokeJoin,
    pub miter_limit: Scalar,
    pub dash: Arc<Vec<Scalar>>,
    pub per_side: Option<Quad>,
}

impl Stroke {
    pub fn copy(&self) -> (r: Self)
        ensures
            r == *self,
    {
        Stroke {
            paint: self.paint.copy(),
            width: self.width,
            align: self.align,
            cap: self.cap,
            join: self.join,
            miter_limit: self.miter_limit,
            dash: share(&self.dash),
            per_side: self.per_side,
        }
    }
}

/// The paints of a layer, bottom first: a `smallvec::SmallVec` with room for
/// one paint inline.
#[verifier::external_body]
#[derive(Debug, PartialEq)]
pub struct FillList {
    items: SmallVec<[Fill; 1]>,
}

/// The paints that a list holds, in order.
pub uninterp spec fn fills_of(list: FillList) -> Seq<Fill>;

impl View for FillList {
    type V = Seq<Fill>;

    open spec fn view(&self) -> Seq<Fill> {
        fills_of(*self)
    }
}

impl FillList {
    /// `SmallVec::new`: an empty list.
    #[verifier::external_body]
    pub(crate) fn new() -> (list: FillList)
        ensures
            fills_of(list) == Seq::<Fill>::empty(),
    {
        FillList { items: SmallVec::new() }
    }

    /// `SmallVec::len`: how many paints the list holds.
    #[verifier::external_body]
    pub(crate) fn len(&self) -> (len: usize)
        ensures
            len == fills_of(*self).len(),
    {
        self.items.len()
    }

    /// Indexing a `SmallVec` below its length: the paint at that place.
    #[verifier::external_body]
    pub(crate) fn at(&self, i: usize) -> (fill: &Fill)
        requires
            i < fills_of(*self).len(),
        ensures
            *fill == fills_of(*self)[i as int],
    {
        &self.items[i]
    }

    /// `SmallVec::push`: the paint goes behind all others.
    #[verifier::external_body]
    pub(crate) fn push(&mut self, fill: Fill)
        ensures
            fills_of(*final(self)) == fills_of(*old(self)).push(fill),
    {
        self.items.push(fill);
    }

    /// `SmallVec::insert` at or below the length: the paint goes to that place
    /// and what stood there moves up.
    #[verifier::external_body]
    pub(crate) fn insert(&mut self, i: usize, fill: Fill)
        requires
            i <= fills_of(*old(self)).len(),
        ensures
            fills_of(*final(self)) == fills_of(*old(self)).insert(i as int, fill),
    {
        self.items.insert(i, fill);
    }

    /// `SmallVec::remove` below the length: the paint at that place comes out
    /// and what stood behind moves down.
    #[verifier::external_body]
    pub(crate) fn remove(&mut self, i: usize) -> (fill: Fill)
        requires
            i < fills_of(*old(self)).len(),
        ensures
            fill == fills_of(*old(self))[i as int],
            fills_of(*final(self)) == fills_of(*old(self)).remove(i as int),
    {
        self.items.remove(i)
    }

    /// `SmallVec::clone`: a list with the same paints.
    #[verifier::external_body]
    pub(crate) fn copy(&self) -> (list: FillList)
        ensures
            list == *self,
    {
        FillList { items: self.items.clone() }
    }

    /// Puts a paint in the place of another.
    pub fn set(&mut self, i: usize, fill: Fill)
        requires
            i < old(self)@.len(),
        ensures
            final(self)@ == old(self)@.update(i as int, fill),
    {
        self.remove(i);
        self.insert(i, fill);
        assert(self@ =~= old(self)@.update(i as int, fill));
    }

    /// A list of the given paints.
    pub fn of(fills: Vec<Fill>) -> (list: FillList)
        ensures
            list@ == fills@,
    {
        let mut list = FillList::new();
        let mut i: usize = 0;
        while i < fills.len()
            invariant
                i <= fills@.len(),
                list@ == fills@.take(i as int),
            decreases fills@.len() - i,
        {
            list.push(fills[i].copy());
            assert(fills@.take(i + 1) =~= fills@.take(i as int).push(fills@[i as int]));
            i = i + 1;
        }
        assert(fills@.take(fills@.len() as int) =~= fills@);
        list
    }

    /// The paints of the list.
    pub fn fills(&self) -> (fills: Vec<Fill>)
        ensures
            fills@ == self@,
    {
        let mut fills: Vec<Fill> = Vec::new();
        let mut i: usize = 0;
        while i < self.len()
            invariant
                i <= self@.len(),
                fills@ == self@.take(i as int),
            decreases self@.len() - i,
        {
            fills.push(self.at(i).copy());
            assert(self@.take(i + 1) =~= self@.take(i as int).push(self@[i as int]));
            i = i + 1;
        }
        assert(self@.take(self@.len() as int) =~= self@);
        fills
    }

    pub fn is_empty(&self) -> (empty: bool)
        ensures
            empty == (self@.len() == 0),
    {
        self.len() == 0
    }

    /// A list of one paint.
    pub fn one(fill: Fill) -> (list: FillList)
        ensures
            list@ == seq![fill],
    {
        let mut list = FillList::new();
        list.push(fill);
        assert(list@ =~= seq![fill]);
        list
    }
}

} // verus!
