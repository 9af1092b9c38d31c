//! Equality of the document's values. Numbers are compared by their values: both
//! zeros are equal, and a NaN equals nothing, not even itself.

use std::sync::Arc;

use vstd::prelude::*;

use crate::document::{
    AutoLayout, BitmapNode, BooleanNode, GroupNode, InstanceNode, NodeData, Override,
    OverrideValue, ParametricShape, PathData, PathSegment, PropValue, StyleRun, TextNode,
    TextStyle, VarValue, VectorNode, VideoNode,
};
use crate::paint::{
    CropWindow, Fill, FillList, Gradient, GradientGeometry, GradientStop, Handles, ImageAdjust,
    PatternFill, Point, Quad, ShaderFill, ShaderGradientStop, ShaderPropertyAssignment,
    ShaderPropertyValue, Size, Stroke, VideoFill,
};
use crate::ids::{same_ids};
use crate::scalar::Scalar;
use crate::text::same_text;

verus! {

/// Values that are compared part by part, down to their numbers.
pub trait Compared: Sized {
    spec fn alike(self, other: Self) -> bool;

    fn is_alike(&self, other: &Self) -> (r: bool)
        ensures
            r == self.alike(*other),
    ;
}

impl Compared for Scalar {
    open spec fn alike(self, other: Self) -> bool {
        self.same(other)
    }

    fn is_alike(&self, other: &Self) -> (r: bool) {
        self.equals(*other)
    }
}

impl Compared for String {
    open spec fn alike(self, other: Self) -> bool {
        self@ == other@
    }

    fn is_alike(&self, other: &Self) -> (r: bool) {
        same_text(self.as_str(), other.as_str())
    }
}

impl<T: Compared> Compared for Option<T> {
    open spec fn alike(self, other: Self) -> bool {
        match (self, other) {
            (Some(a), Some(b)) => a.alike(b),
            (None, None) => true,
            _ => false,
        }
    }

    fn is_alike(&self, other: &Self) -> (r: bool) {
        match (self, other) {
            (Some(a), Some(b)) => a.is_alike(b),
            (None, None) => true,
            _ => false,
        }
    }
}

/// Two lists are as long and alike place by place.
pub open spec fn lists_alike<T: Compared>(a: Seq<T>, b: Seq<T>) -> bool {
    a.len() == b.len() && forall|i: int| 0 <= i < a.len() ==> (#[trigger] a[i]).alike(b[i])
}

impl<T: Compared> Compared for Arc<Vec<T>> {
    open spec fn alike(self, other: Self) -> bool {
        lists_alike(self@, other@)
    }

    fn is_alike(&self, other: &Self) -> (r: bool) {
        if self.len() != other.len() {
            return false;
        }
        let mut i: usize = 0;
        while i < self.len()
            invariant
                i <= self@.len(),
                self@.len() == other@.len(),
                forall|k: int| 0 <= k < i ==> (#[trigger] self@[k]).alike(other@[k]),
            decreases self@.len() - i,
        {
            if !self[i].is_alike(&other[i]) {
                assert(!self@[i as int].alike(other@[i as int]));
                return false;
            }
            i = i + 1;
        }
        true
    }
}

impl Compared for FillList {
    open spec fn alike(self, other: Self) -> bool {
        lists_alike(self@, other@)
    }

    fn is_alike(&self, other: &Self) -> (r: bool) {
        if self.len() != other.len() {
            return false;
        }
        let mut i: usize = 0;
        while i < self.len()
            invariant
                i <= self@.len(),
                self@.len() == other@.len(),
                forall|k: int| 0 <= k < i ==> (#[trigger] self@[k]).alike(other@[k]),
            decreases self@.len() - i,
        {
            if !self.at(i).is_alike(other.at(i)) {
                assert(!self@[i as int].alike(other@[i as int]));
                return false;
            }
            i = i + 1;
        }
        true
    }
}

impl Compared for Point {
    open spec fn alike(self, other: Self) -> bool {
        &&& self.x.alike(other.x)
        &&& self.y.alike(other.y)
    }

    fn is_alike(&self, other: &Self) -> (r: bool) {
        self.x.is_alike(&other.x)
            && self.y.is_alike(&other.y)
    }
}

impl Compared for Size {
    open spec fn alike(self, other: Self) -> bool {
        &&& self.width.alike(other.width)
        &&& self.height.alike(other.height)
    }

    fn is_alike(&self, other: &Self) -> (r: bool) {
        self.width.is_alike(&other.width)
            && self.height.is_alike(&other.height)
    }
}

impl Compared for Handles {
    open spec fn alike(self, other: Self) -> bool {
        &&& self.primary.alike(other.primary)
        &&& self.secondary.alike(other.secondary)
    }

    fn is_alike(&self, other: &Self) -> (r: bool) {
        self.primary.is_alike(&other.primary)
            && self.secondary.is_alike(&other.secondary)
    }
}

impl Compared for Quad {
    open spec fn alike(self, other: Self) -> bool {
        &&& self.first.alike(other.first)
        &&& self.second.alike(other.second)
        &&& self.third.alike(other.third)
        &&& self.fourth.alike(other.fourth)
    }

    fn is_alike(&self, other: &Self) -> (r: bool) {
        self.first.is_alike(&other.first)
            && self.second.is_alike(&other.second)
            && self.third.is_alike(&other.third)
            && self.fourth.is_alike(&other.fourth)
    }
}

impl Compared for CropWindow {
    open spec fn alike(self, other: Self) -> bool {
        &&& self.x.alike(other.x)
        &&& self.y.alike(other.y)
        &&& self.width.alike(other.width)
        &&& self.height.alike(other.height)
    }

    fn is_alike(&self, other: &Self) -> (r: bool) {
        self.x.is_alike(&other.x)
            && self.y.is_alike(&other.y)
            && self.width.is_alike(&other.width)
            && self.height.is_alike(&other.height)
    }
}

impl Compared for GradientStop {
    open spec fn alike(self, other: Self) -> bool {
        &&& self.position.alike(other.position)
        &&& self.color == other.color
    }

    fn is_alike(&self, other: &Self) -> (r: bool) {
        self.position.is_alike(&other.position)
            && self.color == other.color
    }
}

impl Compared for GradientGeometry {
    open spec fn alike(self, other: Self) -> bool {
        match (self, other) {
            (
                GradientGeometry::Linear { start: a_start, end: a_end },
                GradientGeometry::Linear { start: b_start, end: b_end },
            ) => {
                a_start.alike(b_start) && a_end.alike(b_end)
            },
            (
                GradientGeometry::Radial { center: a_center, radius: a_radius, handles: a_handles },
                GradientGeometry::Radial { center: b_center, radius: b_radius, handles: b_handles },
            ) => {
                a_center.alike(b_center) && a_radius.alike(b_radius) && a_handles.alike(b_handles)
            },
            (
                GradientGeometry::Angular { center: a_center, start_angle: a_start_angle },
                GradientGeometry::Angular { center: b_center, start_angle: b_start_angle },
            ) => {
                a_center.alike(b_center) && a_start_angle.alike(b_start_angle)
            },
            (
                GradientGeometry::Diamond {
                    center: a_center,
                    radius: a_radius,
                    handles: a_handles,
                },
                GradientGeometry::Diamond {
                    center: b_center,
                    radius: b_radius,
                    handles: b_handles,
                },
            ) => {
                a_center.alike(b_center) && a_radius.alike(b_radius) && a_handles.alike(b_handles)
            },
            _ => false,
        }
    }

    fn is_alike(&self, other: &Self) -> (r: bool) {
        match (self, other) {
            (
                GradientGeometry::Linear { start: a_start, end: a_end },
                GradientGeometry::Linear { start: b_start, end: b_end },
            ) => {
                a_start.is_alike(b_start) && a_end.is_alike(b_end)
            },
            (
                GradientGeometry::Radial { center: a_center, radius: a_radius, handles: a_handles },
                GradientGeometry::Radial { center: b_center, radius: b_radius, handles: b_handles },
            ) => {
                a_center.is_alike(b_center) && a_radius.is_alike(b_radius)
                    && a_handles.is_alike(b_handles)
            },
            (
                GradientGeometry::Angular { center: a_center, start_angle: a_start_angle },
                GradientGeometry::Angular { center: b_center, start_angle: b_start_angle },
            ) => {
                a_center.is_alike(b_center) && a_start_angle.is_alike(b_start_angle)
            },
            (
                GradientGeometry::Diamond {
                    center: a_center,
                    radius: a_radius,
                    handles: a_handles,
                },
                GradientGeometry::Diamond {
                    center: b_center,
                    radius: b_radius,
                    handles: b_handles,
                },
            ) => {
                a_center.is_alike(b_center) && a_radius.is_alike(b_radius)
                    && a_handles.is_alike(b_handles)
            },
            _ => false,
        }
    }
}

impl Compared for Gradient {
    open spec fn alike(self, other: Self) -> bool {
        &&& self.geometry.alike(other.geometry)
        &&& self.stops.alike(other.stops)
    }

    fn is_alike(&self, other: &Self) -> (r: bool) {
        self.geometry.is_alike(&other.geometry)
            && self.stops.is_alike(&other.stops)
    }
}

impl Compared for ImageAdjust {
    open spec fn alike(self, other: Self) -> bool {
        &&& self.exposure.alike(other.exposure)
        &&& self.contrast.alike(other.contrast)
        &&& self.saturation.alike(other.saturation)
        &&& self.temperature.alike(other.temperature)
        &&& self.tint.alike(other.tint)
        &&& self.highlights.alike(other.highlights)
        &&& self.shadows.alike(other.shadows)
    }

    fn is_alike(&self, other: &Self) -> (r: bool) {
        self.exposure.is_alike(&other.exposure)
            && self.contrast.is_alike(&other.contrast)
            && self.saturation.is_alike(&other.saturation)
            && self.temperature.is_alike(&other.temperature)
            && self.tint.is_alike(&other.tint)
            && self.highlights.is_alike(&other.highlights)
            && self.shadows.is_alike(&other.shadows)
    }
}

impl Compared for PatternFill {
    open spec fn alike(self, other: Self) -> bool {
        &&& self.source_node_id == other.source_node_id
        &&& self.tile_type == other.tile_type
        &&& self.scaling_factor.alike(other.scaling_factor)
        &&& self.spacing.alike(other.spacing)
        &&& self.horizontal_alignment == other.horizontal_alignment
    }

    fn is_alike(&self, other: &Self) -> (r: bool) {
        self.source_node_id == other.source_node_id
            && self.tile_type == other.tile_type
            && self.scaling_factor.is_alike(&other.scaling_factor)
            && self.spacing.is_alike(&other.spacing)
            && self.horizontal_alignment == other.horizontal_alignment
    }
}

impl Compared for VideoFill {
    open spec fn alike(self, other: Self) -> bool {
        &&& self.asset == other.asset
        &&& self.poster == other.poster
        &&& self.mode == other.mode
        &&& self.crop.alike(other.crop)
        &&& self.scale.alike(other.scale)
        &&& self.rotation.alike(other.rotation)
        &&& self.adjust.alike(other.adjust)
    }

    fn is_alike(&self, other: &Self) -> (r: bool) {
        self.asset == other.asset
            && self.poster == other.poster
            && self.mode == other.mode
            && self.crop.is_alike(&other.crop)
            && self.scale.is_alike(&other.scale)
            && self.rotation.is_alike(&other.rotation)
            && self.adjust.is_alike(&other.adjust)
    }
}

impl Compared for ShaderGradientStop {
    open spec fn alike(self, other: Self) -> bool {
        &&& self.position.alike(other.position)
        &&& self.color == other.color
        &&& self.variable_id.alike(other.variable_id)
    }

    fn is_alike(&self, other: &Self) -> (r: bool) {
        self.position.is_alike(&other.position)
            && self.color == other.color
            && self.variable_id.is_alike(&other.variable_id)
    }
}

impl Compared for ShaderPropertyValue {
    open spec fn alike(self, other: Self) -> bool {
        match (self, other) {
            (ShaderPropertyValue::Boolean(a), ShaderPropertyValue::Boolean(b)) => a == b,
            (ShaderPropertyValue::Text(a), ShaderPropertyValue::Text(b)) => a.alike(b),
            (ShaderPropertyValue::Number(a), ShaderPropertyValue::Number(b)) => a.alike(b),
            (ShaderPropertyValue::AssetId(a), ShaderPropertyValue::AssetId(b)) => a.alike(b),
            (ShaderPropertyValue::Color(a), ShaderPropertyValue::Color(b)) => a == b,
            (ShaderPropertyValue::Point(a), ShaderPropertyValue::Point(b)) => a.alike(b),
            (
                ShaderPropertyValue::Line { start: a_start, end: a_end },
                ShaderPropertyValue::Line { start: b_start, end: b_end },
            ) => {
                a_start.alike(b_start) && a_end.alike(b_end)
            },
            (
                ShaderPropertyValue::Circle { center: a_center, radius: a_radius },
                ShaderPropertyValue::Circle { center: b_center, radius: b_radius },
            ) => {
                a_center.alike(b_center) && a_radius.alike(b_radius)
            },
            (
                ShaderPropertyValue::CirclePoint {
                    center: a_center,
                    radius: a_radius,
                    angle: a_angle,
                },
                ShaderPropertyValue::CirclePoint {
                    center: b_center,
                    radius: b_radius,
                    angle: b_angle,
                },
            ) => {
                a_center.alike(b_center) && a_radius.alike(b_radius) && a_angle.alike(b_angle)
            },
            (
                ShaderPropertyValue::ColorPoint {
                    point: a_point,
                    color: a_color,
                    variable_id: a_variable_id,
                },
                ShaderPropertyValue::ColorPoint {
                    point: b_point,
                    color: b_color,
                    variable_id: b_variable_id,
                },
            ) => {
                a_point.alike(b_point) && a_color == b_color && a_variable_id.alike(b_variable_id)
            },
            (ShaderPropertyValue::Gradient(a), ShaderPropertyValue::Gradient(b)) => a.alike(b),
            (
                ShaderPropertyValue::VariableAlias { variable_id: a_variable_id },
                ShaderPropertyValue::VariableAlias { variable_id: b_variable_id },
            ) => {
                a_variable_id.alike(b_variable_id)
            },
            (
                ShaderPropertyValue::Opaque { kind_name: a_kind_name, payload: a_payload },
                ShaderPropertyValue::Opaque { kind_name: b_kind_name, payload: b_payload },
            ) => {
                a_kind_name.alike(b_kind_name) && a_payload.alike(b_payload)
            },
            _ => false,
        }
    }

    fn is_alike(&self, other: &Self) -> (r: bool) {
        match (self, other) {
            (ShaderPropertyValue::Boolean(a), ShaderPropertyValue::Boolean(b)) => *a == *b,
            (ShaderPropertyValue::Text(a), ShaderPropertyValue::Text(b)) => a.is_alike(b),
            (ShaderPropertyValue::Number(a), ShaderPropertyValue::Number(b)) => a.is_alike(b),
            (ShaderPropertyValue::AssetId(a), ShaderPropertyValue::AssetId(b)) => a.is_alike(b),
            (ShaderPropertyValue::Color(a), ShaderPropertyValue::Color(b)) => *a == *b,
            (ShaderPropertyValue::Point(a), ShaderPropertyValue::Point(b)) => a.is_alike(b),
            (
                ShaderPropertyValue::Line { start: a_start, end: a_end },
                ShaderPropertyValue::Line { start: b_start, end: b_end },
            ) => {
                a_start.is_alike(b_start) && a_end.is_alike(b_end)
            },
            (
                ShaderPropertyValue::Circle { center: a_center, radius: a_radius },
                ShaderPropertyValue::Circle { center: b_center, radius: b_radius },
            ) => {
                a_center.is_alike(b_center) && a_radius.is_alike(b_radius)
            },
            (
                ShaderPropertyValue::CirclePoint {
                    center: a_center,
                    radius: a_radius,
                    angle: a_angle,
                },
                ShaderPropertyValue::CirclePoint {
                    center: b_center,
                    radius: b_radius,
                    angle: b_angle,
                },
            ) => {
                a_center.is_alike(b_center) && a_radius.is_alike(b_radius)
                    && a_angle.is_alike(b_angle)
            },
            (
                ShaderPropertyValue::ColorPoint {
                    point: a_point,
                    color: a_color,
                    variable_id: a_variable_id,
                },
                ShaderPropertyValue::ColorPoint {
                    point: b_point,
                    color: b_color,
                    variable_id: b_variable_id,
                },
            ) => {
                a_point.is_alike(b_point) && *a_color == *b_color
                    && a_variable_id.is_alike(b_variable_id)
            },
            (ShaderPropertyValue::Gradient(a), ShaderPropertyValue::Gradient(b)) => a.is_alike(b),
            (
                ShaderPropertyValue::VariableAlias { variable_id: a_variable_id },
                ShaderPropertyValue::VariableAlias { variable_id: b_variable_id },
            ) => {
                a_variable_id.is_alike(b_variable_id)
            },
            (
                ShaderPropertyValue::Opaque { kind_name: a_kind_name, payload: a_payload },
                ShaderPropertyValue::Opaque { kind_name: b_kind_name, payload: b_payload },
            ) => {
                a_kind_name.is_alike(b_kind_name) && a_payload.is_alike(b_payload)
            },
            _ => false,
        }
    }
}

impl Compared for ShaderPropertyAssignment {
    open spec fn alike(self, other: Self) -> bool {
        &&& self.definition_id.alike(other.definition_id)
        &&& self.value.alike(other.value)
    }

    fn is_alike(&self, other: &Self) -> (r: bool) {
        self.definition_id.is_alike(&other.definition_id)
            && self.value.is_alike(&other.value)
    }
}

impl Compared for ShaderFill {
    open spec fn alike(self, other: Self) -> bool {
        &&& self.shader_id.alike(other.shader_id)
        &&& self.name.alike(other.name)
        &&& self.properties.alike(other.properties)
    }

    fn is_alike(&self, other: &Self) -> (r: bool) {
        self.shader_id.is_alike(&other.shader_id)
            && self.name.is_alike(&other.name)
            && self.properties.is_alike(&other.properties)
    }
}

impl Compared for Fill {
    open spec fn alike(self, other: Self) -> bool {
        match (self, other) {
            (
                Fill::Solid { color: a_color, blend: a_blend },
                Fill::Solid { color: b_color, blend: b_blend },
            ) => {
                a_color == b_color && a_blend == b_blend
            },
            (
                Fill::Gradient { gradient: a_gradient, blend: a_blend },
                Fill::Gradient { gradient: b_gradient, blend: b_blend },
            ) => {
                a_gradient.alike(b_gradient) && a_blend == b_blend
            },
            (
                Fill::Image {
                    asset: a_asset,
                    mode: a_mode,
                    opacity: a_opacity,
                    crop: a_crop,
                    scale: a_scale,
                    rotation: a_rotation,
                    blend: a_blend,
                    adjust: a_adjust,
                },
                Fill::Image {
                    asset: b_asset,
                    mode: b_mode,
                    opacity: b_opacity,
                    crop: b_crop,
                    scale: b_scale,
                    rotation: b_rotation,
                    blend: b_blend,
                    adjust: b_adjust,
                },
            ) => {
                a_asset == b_asset && a_mode == b_mode && a_opacity.alike(b_opacity)
                    && a_crop.alike(b_crop) && a_scale.alike(b_scale)
                    && a_rotation.alike(b_rotation) && a_blend == b_blend
                    && a_adjust.alike(b_adjust)
            },
            (
                Fill::Pattern { pattern: a_pattern, opacity: a_opacity, blend: a_blend },
                Fill::Pattern { pattern: b_pattern, opacity: b_opacity, blend: b_blend },
            ) => {
                a_pattern.alike(b_pattern) && a_opacity.alike(b_opacity) && a_blend == b_blend
            },
            (
                Fill::Video { video: a_video, opacity: a_opacity, blend: a_blend },
                Fill::Video { video: b_video, opacity: b_opacity, blend: b_blend },
            ) => {
                a_video.alike(b_video) && a_opacity.alike(b_opacity) && a_blend == b_blend
            },
            (
                Fill::Shader { shader: a_shader, opacity: a_opacity, blend: a_blend },
                Fill::Shader { shader: b_shader, opacity: b_opacity, blend: b_blend },
            ) => {
                a_shader.alike(b_shader) && a_opacity.alike(b_opacity) && a_blend == b_blend
            },
            _ => false,
        }
    }

    fn is_alike(&self, other: &Self) -> (r: bool) {
        match (self, other) {
            (
                Fill::Solid { color: a_color, blend: a_blend },
                Fill::Solid { color: b_color, blend: b_blend },
            ) => {
                *a_color == *b_color && *a_blend == *b_blend
            },
            (
                Fill::Gradient { gradient: a_gradient, blend: a_blend },
                Fill::Gradient { gradient: b_gradient, blend: b_blend },
            ) => {
                a_gradient.is_alike(b_gradient) && *a_blend == *b_blend
            },
            (
                Fill::Image {
                    asset: a_asset,
                    mode: a_mode,
                    opacity: a_opacity,
                    crop: a_crop,
                    scale: a_scale,
                    rotation: a_rotation,
                    blend: a_blend,
                    adjust: a_adjust,
                },
                Fill::Image {
                    asset: b_asset,
                    mode: b_mode,
                    opacity: b_opacity,
                    crop: b_crop,
                    scale: b_scale,
                    rotation: b_rotation,
                    blend: b_blend,
                    adjust: b_adjust,
                },
            ) => {
                *a_asset == *b_asset && *a_mode == *b_mode && a_opacity.is_alike(b_opacity)
                    && a_crop.is_alike(b_crop) && a_scale.is_alike(b_scale)
                    && a_rotation.is_alike(b_rotation) && *a_blend == *b_blend
                    && a_adjust.is_alike(b_adjust)
            },
            (
                Fill::Pattern { pattern: a_pattern, opacity: a_opacity, blend: a_blend },
                Fill::Pattern { pattern: b_pattern, opacity: b_opacity, blend: b_blend },
            ) => {
                a_pattern.is_alike(b_pattern) && a_opacity.is_alike(b_opacity)
                    && *a_blend == *b_blend
            },
            (
                Fill::Video { video: a_video, opacity: a_opacity, blend: a_blend },
                Fill::Video { video: b_video, opacity: b_opacity, blend: b_blend },
            ) => {
                a_video.is_alike(b_video) && a_opacity.is_alike(b_opacity) && *a_blend == *b_blend
            },
            (
                Fill::Shader { shader: a_shader, opacity: a_opacity, blend: a_blend },
                Fill::Shader { shader: b_shader, opacity: b_opacity, blend: b_blend },
            ) => {
                a_shader.is_alike(b_shader) && a_opacity.is_alike(b_opacity) && *a_blend == *b_blend
            },
            _ => false,
        }
    }
}

impl Compared for Stroke {
    open spec fn alike(self, other: Self) -> bool {
        &&& self.paint.alike(other.paint)
        &&& self.width.alike(other.width)
        &&& self.align == other.align
        &&& self.cap == other.cap
        &&& self.join == other.join
        &&& self.miter_limit.alike(other.miter_limit)
        &&& self.dash.alike(other.dash)
        &&& self.per_side.alike(other.per_side)
    }

    fn is_alike(&self, other: &Self) -> (r: bool) {
        self.paint.is_alike(&other.paint)
            && self.width.is_alike(&other.width)
            && self.align == other.align
            && self.cap == other.cap
            && self.join == other.join
            && self.miter_limit.is_alike(&other.miter_limit)
            && self.dash.is_alike(&other.dash)
            && self.per_side.is_alike(&other.per_side)
    }
}

impl Compared for AutoLayout {
    open spec fn alike(self, other: Self) -> bool {
        &&& self.mode == other.mode
        &&& self.gap_h.alike(other.gap_h)
        &&& self.gap_v.alike(other.gap_v)
        &&& self.wrap == other.wrap
        &&& self.primary_sizing == other.primary_sizing
        &&& self.counter_sizing == other.counter_sizing
        &&& self.primary_align == other.primary_align
        &&& self.counter_align == other.counter_align
        &&& self.padding.alike(other.padding)
        &&& self.min_width.alike(other.min_width)
        &&& self.max_width.alike(other.max_width)
        &&& self.min_height.alike(other.min_height)
        &&& self.max_height.alike(other.max_height)
        &&& self.reverse_z == other.reverse_z
        &&& self.include_strokes == other.include_strokes
        &&& self.counter_auto_spacing == other.counter_auto_spacing
        &&& self.child_layout == other.child_layout
    }

    fn is_alike(&self, other: &Self) -> (r: bool) {
        self.mode == other.mode
            && self.gap_h.is_alike(&other.gap_h)
            && self.gap_v.is_alike(&other.gap_v)
            && self.wrap == other.wrap
            && self.primary_sizing == other.primary_sizing
            && self.counter_sizing == other.counter_sizing
            && self.primary_align == other.primary_align
            && self.counter_align == other.counter_align
            && self.padding.is_alike(&other.padding)
            && self.min_width.is_alike(&other.min_width)
            && self.max_width.is_alike(&other.max_width)
            && self.min_height.is_alike(&other.min_height)
            && self.max_height.is_alike(&other.max_height)
            && self.reverse_z == other.reverse_z
            && self.include_strokes == other.include_strokes
            && self.counter_auto_spacing == other.counter_auto_spacing
            && self.child_layout == other.child_layout
    }
}

impl Compared for GroupNode {
    open spec fn alike(self, other: Self) -> bool {
        &&& self.background.alike(other.background)
        &&& self.background_fills.alike(other.background_fills)
        &&& self.strokes.alike(other.strokes)
        &&& self.clip_size.alike(other.clip_size)
        &&& self.local_size.alike(other.local_size)
        &&& self.corner_radius.alike(other.corner_radius)
        &&& self.corner_radii.alike(other.corner_radii)
        &&& self.corner_smoothing.alike(other.corner_smoothing)
        &&& self.auto_layout.alike(other.auto_layout)
        &&& self.frame_surface == other.frame_surface
    }

    fn is_alike(&self, other: &Self) -> (r: bool) {
        self.background.is_alike(&other.background)
            && self.background_fills.is_alike(&other.background_fills)
            && self.strokes.is_alike(&other.strokes)
            && self.clip_size.is_alike(&other.clip_size)
            && self.local_size.is_alike(&other.local_size)
            && self.corner_radius.is_alike(&other.corner_radius)
            && self.corner_radii.is_alike(&other.corner_radii)
            && self.corner_smoothing.is_alike(&other.corner_smoothing)
            && self.auto_layout.is_alike(&other.auto_layout)
            && self.frame_surface == other.frame_surface
    }
}

impl Compared for PathSegment {
    open spec fn alike(self, other: Self) -> bool {
        match (self, other) {
            (PathSegment::Move { x: a_x, y: a_y }, PathSegment::Move { x: b_x, y: b_y }) => {
                a_x.alike(b_x) && a_y.alike(b_y)
            },
            (PathSegment::Line { x: a_x, y: a_y }, PathSegment::Line { x: b_x, y: b_y }) => {
                a_x.alike(b_x) && a_y.alike(b_y)
            },
            (
                PathSegment::Quad { cx: a_cx, cy: a_cy, x: a_x, y: a_y },
                PathSegment::Quad { cx: b_cx, cy: b_cy, x: b_x, y: b_y },
            ) => {
                a_cx.alike(b_cx) && a_cy.alike(b_cy) && a_x.alike(b_x) && a_y.alike(b_y)
            },
            (
                PathSegment::Cubic { ax: a_ax, ay: a_ay, bx: a_bx, by: a_by, x: a_x, y: a_y },
                PathSegment::Cubic { ax: b_ax, ay: b_ay, bx: b_bx, by: b_by, x: b_x, y: b_y },
            ) => {
                a_ax.alike(b_ax) && a_ay.alike(b_ay) && a_bx.alike(b_bx) && a_by.alike(b_by)
                    && a_x.alike(b_x) && a_y.alike(b_y)
            },
            (PathSegment::Close, PathSegment::Close) => true,
            _ => false,
        }
    }

    fn is_alike(&self, other: &Self) -> (r: bool) {
        match (self, other) {
            (PathSegment::Move { x: a_x, y: a_y }, PathSegment::Move { x: b_x, y: b_y }) => {
                a_x.is_alike(b_x) && a_y.is_alike(b_y)
            },
            (PathSegment::Line { x: a_x, y: a_y }, PathSegment::Line { x: b_x, y: b_y }) => {
                a_x.is_alike(b_x) && a_y.is_alike(b_y)
            },
            (
                PathSegment::Quad { cx: a_cx, cy: a_cy, x: a_x, y: a_y },
                PathSegment::Quad { cx: b_cx, cy: b_cy, x: b_x, y: b_y },
            ) => {
                a_cx.is_alike(b_cx) && a_cy.is_alike(b_cy) && a_x.is_alike(b_x) && a_y.is_alike(b_y)
            },
            (
                PathSegment::Cubic { ax: a_ax, ay: a_ay, bx: a_bx, by: a_by, x: a_x, y: a_y },
                PathSegment::Cubic { ax: b_ax, ay: b_ay, bx: b_bx, by: b_by, x: b_x, y: b_y },
            ) => {
                a_ax.is_alike(b_ax) && a_ay.is_alike(b_ay) && a_bx.is_alike(b_bx)
                    && a_by.is_alike(b_by) && a_x.is_alike(b_x) && a_y.is_alike(b_y)
            },
            (PathSegment::Close, PathSegment::Close) => true,
            _ => false,
        }
    }
}

impl Compared for PathData {
    open spec fn alike(self, other: Self) -> bool {
        &&& self.segments.alike(other.segments)
        &&& self.rectangle == other.rectangle
    }

    fn is_alike(&self, other: &Self) -> (r: bool) {
        self.segments.is_alike(&other.segments)
            && self.rectangle == other.rectangle
    }
}

impl Compared for ParametricShape {
    open spec fn alike(self, other: Self) -> bool {
        match (self, other) {
            (
                ParametricShape::Polygon { points: a_points },
                ParametricShape::Polygon { points: b_points },
            ) => {
                a_points == b_points
            },
            (
                ParametricShape::Star { points: a_points, inner_ratio: a_inner_ratio },
                ParametricShape::Star { points: b_points, inner_ratio: b_inner_ratio },
            ) => {
                a_points == b_points && a_inner_ratio.alike(b_inner_ratio)
            },
            (
                ParametricShape::Arc {
                    start_rad: a_start_rad,
                    sweep_rad: a_sweep_rad,
                    inner_ratio: a_inner_ratio,
                },
                ParametricShape::Arc {
                    start_rad: b_start_rad,
                    sweep_rad: b_sweep_rad,
                    inner_ratio: b_inner_ratio,
                },
            ) => {
                a_start_rad.alike(b_start_rad) && a_sweep_rad.alike(b_sweep_rad)
                    && a_inner_ratio.alike(b_inner_ratio)
            },
            _ => false,
        }
    }

    fn is_alike(&self, other: &Self) -> (r: bool) {
        match (self, other) {
            (
                ParametricShape::Polygon { points: a_points },
                ParametricShape::Polygon { points: b_points },
            ) => {
                *a_points == *b_points
            },
            (
                ParametricShape::Star { points: a_points, inner_ratio: a_inner_ratio },
                ParametricShape::Star { points: b_points, inner_ratio: b_inner_ratio },
            ) => {
                *a_points == *b_points && a_inner_ratio.is_alike(b_inner_ratio)
            },
            (
                ParametricShape::Arc {
                    start_rad: a_start_rad,
                    sweep_rad: a_sweep_rad,
                    inner_ratio: a_inner_ratio,
                },
                ParametricShape::Arc {
                    start_rad: b_start_rad,
                    sweep_rad: b_sweep_rad,
                    inner_ratio: b_inner_ratio,
                },
            ) => {
                a_start_rad.is_alike(b_start_rad) && a_sweep_rad.is_alike(b_sweep_rad)
                    && a_inner_ratio.is_alike(b_inner_ratio)
            },
            _ => false,
        }
    }
}

impl Compared for VectorNode {
    open spec fn alike(self, other: Self) -> bool {
        &&& self.path.alike(other.path)
        &&& self.fills.alike(other.fills)
        &&& self.strokes.alike(other.strokes)
        &&& self.corner_radius.alike(other.corner_radius)
        &&& self.corner_radii.alike(other.corner_radii)
        &&& self.corner_smoothing.alike(other.corner_smoothing)
        &&& self.parametric.alike(other.parametric)
        &&& self.local_size.alike(other.local_size)
    }

    fn is_alike(&self, other: &Self) -> (r: bool) {
        self.path.is_alike(&other.path)
            && self.fills.is_alike(&other.fills)
            && self.strokes.is_alike(&other.strokes)
            && self.corner_radius.is_alike(&other.corner_radius)
            && self.corner_radii.is_alike(&other.corner_radii)
            && self.corner_smoothing.is_alike(&other.corner_smoothing)
            && self.parametric.is_alike(&other.parametric)
            && self.local_size.is_alike(&other.local_size)
    }
}

impl Compared for TextStyle {
    open spec fn alike(self, other: Self) -> bool {
        &&& self.font_family.alike(other.font_family)
        &&& self.italic == other.italic
        &&& self.weight == other.weight
        &&& self.size_px.alike(other.size_px)
        &&& self.line_height.alike(other.line_height)
        &&& self.line_height_auto_percent.alike(other.line_height_auto_percent)
        &&& self.letter_spacing.alike(other.letter_spacing)
        &&& self.underline == other.underline
        &&& self.strikethrough == other.strikethrough
        &&& self.color == other.color
    }

    fn is_alike(&self, other: &Self) -> (r: bool) {
        self.font_family.is_alike(&other.font_family)
            && self.italic == other.italic
            && self.weight == other.weight
            && self.size_px.is_alike(&other.size_px)
            && self.line_height.is_alike(&other.line_height)
            && self.line_height_auto_percent.is_alike(&other.line_height_auto_percent)
            && self.letter_spacing.is_alike(&other.letter_spacing)
            && self.underline == other.underline
            && self.strikethrough == other.strikethrough
            && self.color == other.color
    }
}

impl Compared for StyleRun {
    open spec fn alike(self, other: Self) -> bool {
        &&& self.start == other.start
        &&& self.end == other.end
        &&& self.style.alike(other.style)
    }

    fn is_alike(&self, other: &Self) -> (r: bool) {
        self.start == other.start
            && self.end == other.end
            && self.style.is_alike(&other.style)
    }
}

impl Compared for TextNode {
    open spec fn alike(self, other: Self) -> bool {
        &&& self.content.alike(other.content)
        &&& self.style.alike(other.style)
        &&& self.style_runs.alike(other.style_runs)
        &&& self.align == other.align
        &&& self.vertical_align == other.vertical_align
        &&& self.auto_resize == other.auto_resize
        &&& self.local_size.alike(other.local_size)
    }

    fn is_alike(&self, other: &Self) -> (r: bool) {
        self.content.is_alike(&other.content)
            && self.style.is_alike(&other.style)
            && self.style_runs.is_alike(&other.style_runs)
            && self.align == other.align
            && self.vertical_align == other.vertical_align
            && self.auto_resize == other.auto_resize
            && self.local_size.is_alike(&other.local_size)
    }
}

impl Compared for BitmapNode {
    open spec fn alike(self, other: Self) -> bool {
        &&& self.asset == other.asset
        &&& self.natural_size == other.natural_size
        &&& self.local_size.alike(other.local_size)
        &&& self.crop.alike(other.crop)
        &&& self.fit == other.fit
        &&& self.tint == other.tint
    }

    fn is_alike(&self, other: &Self) -> (r: bool) {
        self.asset == other.asset
            && self.natural_size == other.natural_size
            && self.local_size.is_alike(&other.local_size)
            && self.crop.is_alike(&other.crop)
            && self.fit == other.fit
            && self.tint == other.tint
    }
}

impl Compared for VideoNode {
    open spec fn alike(self, other: Self) -> bool {
        &&& self.asset == other.asset
        &&& self.natural_size == other.natural_size
        &&& self.start_us == other.start_us
        &&& self.end_us == other.end_us
        &&& self.poster == other.poster
        &&& self.poster_frame_us == other.poster_frame_us
        &&& self.local_size.alike(other.local_size)
    }

    fn is_alike(&self, other: &Self) -> (r: bool) {
        self.asset == other.asset
            && self.natural_size == other.natural_size
            && self.start_us == other.start_us
            && self.end_us == other.end_us
            && self.poster == other.poster
            && self.poster_frame_us == other.poster_frame_us
            && self.local_size.is_alike(&other.local_size)
    }
}

impl Compared for BooleanNode {
    open spec fn alike(self, other: Self) -> bool {
        &&& self.op == other.op
        &&& self.fills.alike(other.fills)
        &&& self.strokes.alike(other.strokes)
    }

    fn is_alike(&self, other: &Self) -> (r: bool) {
        self.op == other.op
            && self.fills.is_alike(&other.fills)
            && self.strokes.is_alike(&other.strokes)
    }
}

impl Compared for OverrideValue {
    open spec fn alike(self, other: Self) -> bool {
        match (self, other) {
            (OverrideValue::Text { value: a_value }, OverrideValue::Text { value: b_value }) => {
                a_value.alike(b_value)
            },
            (OverrideValue::Fills { fills: a_fills }, OverrideValue::Fills { fills: b_fills }) => {
                a_fills.alike(b_fills)
            },
            (
                OverrideValue::Visible { value: a_value },
                OverrideValue::Visible { value: b_value },
            ) => {
                a_value == b_value
            },
            _ => false,
        }
    }

    fn is_alike(&self, other: &Self) -> (r: bool) {
        match (self, other) {
            (OverrideValue::Text { value: a_value }, OverrideValue::Text { value: b_value }) => {
                a_value.is_alike(b_value)
            },
            (OverrideValue::Fills { fills: a_fills }, OverrideValue::Fills { fills: b_fills }) => {
                a_fills.is_alike(b_fills)
            },
            (
                OverrideValue::Visible { value: a_value },
                OverrideValue::Visible { value: b_value },
            ) => {
                *a_value == *b_value
            },
            _ => false,
        }
    }
}

impl Compared for Override {
    open spec fn alike(self, other: Self) -> bool {
        &&& self.target_path@ == other.target_path@
        &&& self.target_prop == other.target_prop
        &&& self.value.alike(other.value)
    }

    fn is_alike(&self, other: &Self) -> (r: bool) {
        same_ids(&self.target_path, &other.target_path)
            && self.target_prop == other.target_prop
            && self.value.is_alike(&other.value)
    }
}

impl Compared for VarValue {
    open spec fn alike(self, other: Self) -> bool {
        match (self, other) {
            (VarValue::Boolean { value: a_value }, VarValue::Boolean { value: b_value }) => {
                a_value == b_value
            },
            (VarValue::Float { value: a_value }, VarValue::Float { value: b_value }) => {
                a_value.alike(b_value)
            },
            (VarValue::Text { value: a_value }, VarValue::Text { value: b_value }) => {
                a_value.alike(b_value)
            },
            (VarValue::Color { value: a_value }, VarValue::Color { value: b_value }) => {
                a_value == b_value
            },
            _ => false,
        }
    }

    fn is_alike(&self, other: &Self) -> (r: bool) {
        match (self, other) {
            (VarValue::Boolean { value: a_value }, VarValue::Boolean { value: b_value }) => {
                *a_value == *b_value
            },
            (VarValue::Float { value: a_value }, VarValue::Float { value: b_value }) => {
                a_value.is_alike(b_value)
            },
            (VarValue::Text { value: a_value }, VarValue::Text { value: b_value }) => {
                a_value.is_alike(b_value)
            },
            (VarValue::Color { value: a_value }, VarValue::Color { value: b_value }) => {
                *a_value == *b_value
            },
            _ => false,
        }
    }
}

impl Compared for PropValue {
    open spec fn alike(self, other: Self) -> bool {
        &&& self.prop == other.prop
        &&& self.value.alike(other.value)
    }

    fn is_alike(&self, other: &Self) -> (r: bool) {
        self.prop == other.prop
            && self.value.is_alike(&other.value)
    }
}

impl Compared for InstanceNode {
    open spec fn alike(self, other: Self) -> bool {
        &&& self.component == other.component
        &&& self.overrides.alike(other.overrides)
        &&& self.prop_values.alike(other.prop_values)
        &&& self.derived@ == other.derived@
        &&& self.local_size.alike(other.local_size)
    }

    fn is_alike(&self, other: &Self) -> (r: bool) {
        self.component == other.component
            && self.overrides.is_alike(&other.overrides)
            && self.prop_values.is_alike(&other.prop_values)
            && same_ids(&self.derived, &other.derived)
            && self.local_size.is_alike(&other.local_size)
    }
}

impl Compared for NodeData {
    open spec fn alike(self, other: Self) -> bool {
        match (self, other) {
            (NodeData::Group(a), NodeData::Group(b)) => a.alike(b),
            (NodeData::Vector(a), NodeData::Vector(b)) => a.alike(b),
            (NodeData::Text(a), NodeData::Text(b)) => a.alike(b),
            (
                NodeData::TextPath { content: a_content },
                NodeData::TextPath { content: b_content },
            ) => {
                a_content.alike(b_content)
            },
            (NodeData::Bitmap(a), NodeData::Bitmap(b)) => a.alike(b),
            (NodeData::Video(a), NodeData::Video(b)) => a.alike(b),
            (NodeData::Instance(a), NodeData::Instance(b)) => a.alike(b),
            (NodeData::Boolean(a), NodeData::Boolean(b)) => a.alike(b),
            (NodeData::Audio, NodeData::Audio) => true,
            (NodeData::NodeGraph, NodeData::NodeGraph) => true,
            (NodeData::Model3d, NodeData::Model3d) => true,
            (NodeData::AiArtifact, NodeData::AiArtifact) => true,
            (NodeData::Embed, NodeData::Embed) => true,
            _ => false,
        }
    }

    fn is_alike(&self, other: &Self) -> (r: bool) {
        match (self, other) {
            (NodeData::Group(a), NodeData::Group(b)) => a.is_alike(b),
            (NodeData::Vector(a), NodeData::Vector(b)) => a.is_alike(b),
            (NodeData::Text(a), NodeData::Text(b)) => a.is_alike(b),
            (
                NodeData::TextPath { content: a_content },
                NodeData::TextPath { content: b_content },
            ) => {
                a_content.is_alike(b_content)
            },
            (NodeData::Bitmap(a), NodeData::Bitmap(b)) => a.is_alike(b),
            (NodeData::Video(a), NodeData::Video(b)) => a.is_alike(b),
            (NodeData::Instance(a), NodeData::Instance(b)) => a.is_alike(b),
            (NodeData::Boolean(a), NodeData::Boolean(b)) => a.is_alike(b),
            (NodeData::Audio, NodeData::Audio) => true,
            (NodeData::NodeGraph, NodeData::NodeGraph) => true,
            (NodeData::Model3d, NodeData::Model3d) => true,
            (NodeData::AiArtifact, NodeData::AiArtifact) => true,
            (NodeData::Embed, NodeData::Embed) => true,
            _ => false,
        }
    }
}

} // verus!
