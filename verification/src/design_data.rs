//! Edits of a layer's data that the inspector makes: strokes, text, layout,
//! corners and boolean operations. An edit of something that the layer does not
//! have gives no operation.

use std::sync::Arc;

use vstd::prelude::*;

use crate::design_values::SizingMode;
use crate::document::{
    AutoLayout, AxisSizing, BooleanNode, BooleanOp, CanvasNode, CounterAlign, Doc, GroupNode,
    LayoutChild, LayoutMode, NodeData, ParametricShape, PathData, PrimaryAlign, StyleRun,
    TextAlign, TextAutoResize, TextNode, TextStyle, TextVAlign, VectorNode,
};
use crate::ids::NodeId;
use crate::layer_context_ops::replace_data;
use crate::operations::Operation;
use crate::paint::{share, Color, Quad, Size, Stroke, StrokeAlign, StrokeCap, StrokeJoin};
use crate::sameness::Compared;
use crate::scalar::Scalar;

verus! {

// ---------------------------------------------------------------------------
// Strokes
// ---------------------------------------------------------------------------

#[derive(Debug, PartialEq)]
pub enum StrokeEdit {
    Weight(Scalar),
    /// Weights side by side, or one weight for all.
    PerSide(bool),
    Side { side: u8, weight: Scalar },
    Align(StrokeAlign),
    Cap(StrokeCap),
    Join(StrokeJoin),
    MiterLimit(Scalar),
    /// A pattern for strokes without one.
    StartDash(Arc<Vec<Scalar>>),
    Dash(Arc<Vec<Scalar>>),
}

/// The stroke after an edit. One weight for all is that of the top side.
pub open spec fn stroke_edited(stroke: Stroke, edit: StrokeEdit) -> Stroke {
    match edit {
        StrokeEdit::Weight(weight) => match stroke.per_side {
            Some(sides) => Stroke { per_side: Some(sides.with(0, weight)), ..stroke },
            None => Stroke { width: weight, ..stroke },
        },
        StrokeEdit::PerSide(custom) => match stroke.per_side {
            Some(sides) => if custom {
                stroke
            } else {
                Stroke { width: sides.first, per_side: None, ..stroke }
            },
            None => if custom {
                Stroke { per_side: Some(Quad::all(stroke.width)), ..stroke }
            } else {
                stroke
            },
        },
        StrokeEdit::Side { side, weight } => {
            let sides = match stroke.per_side {
                Some(sides) => sides,
                None => Quad::all(stroke.width),
            };
            Stroke { per_side: Some(sides.with(side, weight)), ..stroke }
        },
        StrokeEdit::Align(align) => Stroke { align: align, ..stroke },
        StrokeEdit::Cap(cap) => Stroke { cap: cap, ..stroke },
        StrokeEdit::Join(join) => Stroke { join: join, ..stroke },
        StrokeEdit::MiterLimit(limit) => Stroke { miter_limit: limit, ..stroke },
        StrokeEdit::StartDash(dash) => if stroke.dash@.len() == 0 {
            Stroke { dash: dash, ..stroke }
        } else {
            stroke
        },
        StrokeEdit::Dash(dash) => Stroke { dash: dash, ..stroke },
    }
}

pub open spec fn strokes_edited(strokes: Seq<Stroke>, edit: StrokeEdit) -> Seq<Stroke> {
    strokes.map_values(|stroke: Stroke| stroke_edited(stroke, edit))
}

fn edit_stroke(old: &Stroke, edit: &StrokeEdit) -> (stroke: Stroke)
    ensures
        stroke == stroke_edited(*old, *edit),
{
    let stroke = old.copy();
    match edit {
        StrokeEdit::Weight(weight) => match stroke.per_side {
            Some(sides) => Stroke { per_side: Some(sides.with(0, *weight)), ..stroke },
            None => Stroke { width: *weight, ..stroke },
        },
        StrokeEdit::PerSide(custom) => match stroke.per_side {
            Some(sides) => if *custom {
                stroke
            } else {
                Stroke { width: sides.first, per_side: None, ..stroke }
            },
            None => if *custom {
                Stroke { per_side: Some(Quad::all(stroke.width)), ..stroke }
            } else {
                stroke
            },
        },
        StrokeEdit::Side { side, weight } => {
            let sides = match stroke.per_side {
                Some(sides) => sides,
                None => Quad::all(stroke.width),
            };
            Stroke { per_side: Some(sides.with(*side, *weight)), ..stroke }
        },
        StrokeEdit::Align(align) => Stroke { align: *align, ..stroke },
        StrokeEdit::Cap(cap) => Stroke { cap: *cap, ..stroke },
        StrokeEdit::Join(join) => Stroke { join: *join, ..stroke },
        StrokeEdit::MiterLimit(limit) => Stroke { miter_limit: *limit, ..stroke },
        StrokeEdit::StartDash(dash) => if stroke.dash.len() == 0 {
            Stroke { dash: share(dash), ..stroke }
        } else {
            stroke
        },
        StrokeEdit::Dash(dash) => Stroke { dash: share(dash), ..stroke },
    }
}

fn edit_strokes(old: &Vec<Stroke>, edit: &StrokeEdit) -> (strokes: Vec<Stroke>)
    ensures
        strokes@ == strokes_edited(old@, *edit),
{
    let mut strokes: Vec<Stroke> = Vec::new();
    let mut i: usize = 0;
    while i < old.len()
        invariant
            i <= old@.len(),
            strokes@ == strokes_edited(old@, *edit).take(i as int),
        decreases old@.len() - i,
    {
        strokes.push(edit_stroke(&old[i], edit));
        assert(strokes@ =~= strokes_edited(old@, *edit).take(i + 1));
        i = i + 1;
    }
    assert(strokes@ =~= strokes_edited(old@, *edit));
    strokes
}

// ---------------------------------------------------------------------------
// Text
// ---------------------------------------------------------------------------

#[derive(Debug, PartialEq)]
pub enum StyleEdit {
    Family(String),
    /// A family with its slant and, where it has one, its weight.
    Font { family: String, italic: bool, weight: Option<u16> },
    Size(Scalar),
    Weight(u16),
    LineHeight(Scalar),
    LetterSpacing(Scalar),
    Decoration { underline: bool, strikethrough: bool },
    Color(Color),
    Alpha(u8),
}

pub open spec fn style_edited(style: TextStyle, edit: StyleEdit) -> TextStyle {
    match edit {
        StyleEdit::Family(family) => TextStyle { font_family: family, ..style },
        StyleEdit::Font { family, italic, weight } => TextStyle {
            font_family: family,
            italic: italic,
            weight: match weight {
                Some(weight) => weight,
                None => style.weight,
            },
            ..style
        },
        StyleEdit::Size(size) => TextStyle { size_px: size, ..style },
        StyleEdit::Weight(weight) => TextStyle { weight: weight, ..style },
        StyleEdit::LineHeight(height) => TextStyle {
            line_height: height,
            line_height_auto_percent: None,
            ..style
        },
        StyleEdit::LetterSpacing(spacing) => TextStyle { letter_spacing: spacing, ..style },
        StyleEdit::Decoration { underline, strikethrough } => TextStyle {
            underline: underline,
            strikethrough: strikethrough,
            ..style
        },
        StyleEdit::Color(color) => TextStyle { color: color, ..style },
        StyleEdit::Alpha(alpha) => TextStyle { color: Color { a: alpha, ..style.color }, ..style },
    }
}

pub open spec fn runs_edited(runs: Seq<StyleRun>, edit: StyleEdit) -> Seq<StyleRun> {
    runs.map_values(
        |run: StyleRun|
            StyleRun { start: run.start, end: run.end, style: style_edited(run.style, edit) },
    )
}

#[derive(Debug, PartialEq)]
pub enum TextEdit {
    /// The style of the text and of all its runs.
    Style(StyleEdit),
    Align(TextAlign),
    VerticalAlign(TextVAlign),
    Resize(TextAutoResize),
    Sizing { horizontal: bool, mode: SizingMode },
}

/// How a text sizes itself once one axis is set. A width that fits the text
/// implies a height that does; a fixed width keeps the height fitting.
pub open spec fn resize_for(
    current: TextAutoResize,
    horizontal: bool,
    mode: SizingMode,
) -> TextAutoResize {
    match mode {
        SizingMode::Hug => if horizontal || current is WidthAndHeight {
            TextAutoResize::WidthAndHeight
        } else {
            TextAutoResize::Height
        },
        SizingMode::Fixed => if horizontal && current is WidthAndHeight {
            TextAutoResize::Height
        } else {
            TextAutoResize::Fixed
        },
        SizingMode::Fill => current,
    }
}

pub open spec fn text_edited(old: TextNode, edit: TextEdit, new: TextNode) -> bool {
    match edit {
        TextEdit::Style(style) => new == (TextNode {
            style: style_edited(old.style, style),
            style_runs: new.style_runs,
            ..old
        }) && new.style_runs@ == runs_edited(old.style_runs@, style),
        TextEdit::Align(align) => new == (TextNode { align: align, ..old }),
        TextEdit::VerticalAlign(align) => new == (TextNode { vertical_align: align, ..old }),
        TextEdit::Resize(resize) => new == (TextNode { auto_resize: resize, ..old }),
        TextEdit::Sizing { horizontal, mode } => new == (TextNode {
            auto_resize: resize_for(old.auto_resize, horizontal, mode),
            ..old
        }),
    }
}

fn edit_style(old: &TextStyle, edit: &StyleEdit) -> (style: TextStyle)
    ensures
        style == style_edited(*old, *edit),
{
    let style = old.copy();
    match edit {
        StyleEdit::Family(family) => TextStyle { font_family: family.clone(), ..style },
        StyleEdit::Font { family, italic, weight } => TextStyle {
            font_family: family.clone(),
            italic: *italic,
            weight: match weight {
                Some(weight) => *weight,
                None => style.weight,
            },
            ..style
        },
        StyleEdit::Size(size) => TextStyle { size_px: *size, ..style },
        StyleEdit::Weight(weight) => TextStyle { weight: *weight, ..style },
        StyleEdit::LineHeight(height) => TextStyle {
            line_height: *height,
            line_height_auto_percent: None,
            ..style
        },
        StyleEdit::LetterSpacing(spacing) => TextStyle { letter_spacing: *spacing, ..style },
        StyleEdit::Decoration { underline, strikethrough } => TextStyle {
            underline: *underline,
            strikethrough: *strikethrough,
            ..style
        },
        StyleEdit::Color(color) => TextStyle { color: *color, ..style },
        StyleEdit::Alpha(alpha) => TextStyle {
            color: Color { a: *alpha, ..style.color },
            ..style
        },
    }
}

fn edit_runs(old: &Vec<StyleRun>, edit: &StyleEdit) -> (runs: Vec<StyleRun>)
    ensures
        runs@ == runs_edited(old@, *edit),
{
    let mut runs: Vec<StyleRun> = Vec::new();
    let mut i: usize = 0;
    while i < old.len()
        invariant
            i <= old@.len(),
            runs@ == runs_edited(old@, *edit).take(i as int),
        decreases old@.len() - i,
    {
        runs.push(
            StyleRun {
                start: old[i].start,
                end: old[i].end,
                style: edit_style(&old[i].style, edit),
            },
        );
        assert(runs@ =~= runs_edited(old@, *edit).take(i + 1));
        i = i + 1;
    }
    assert(runs@ =~= runs_edited(old@, *edit));
    runs
}

fn edit_text(old: &TextNode, edit: &TextEdit) -> (text: TextNode)
    ensures
        text_edited(*old, *edit, text),
{
    let text = old.copy();
    match edit {
        TextEdit::Style(style) => TextNode {
            style: edit_style(&old.style, style),
            style_runs: Arc::new(edit_runs(&old.style_runs, style)),
            ..text
        },
        TextEdit::Align(align) => TextNode { align: *align, ..text },
        TextEdit::VerticalAlign(align) => TextNode { vertical_align: *align, ..text },
        TextEdit::Resize(resize) => TextNode { auto_resize: *resize, ..text },
        TextEdit::Sizing { horizontal, mode } => {
            let both = match text.auto_resize {
                TextAutoResize::WidthAndHeight => true,
                _ => false,
            };
            let auto_resize = match mode {
                SizingMode::Hug => if *horizontal || both {
                    TextAutoResize::WidthAndHeight
                } else {
                    TextAutoResize::Height
                },
                SizingMode::Fixed => if *horizontal && both {
                    TextAutoResize::Height
                } else {
                    TextAutoResize::Fixed
                },
                SizingMode::Fill => text.auto_resize,
            };
            TextNode { auto_resize, ..text }
        },
    }
}

// ---------------------------------------------------------------------------
// Layout of a frame
// ---------------------------------------------------------------------------

#[derive(Clone, Copy, Debug, PartialEq, Eq, Structural)]
pub enum LayoutEdit {
    Alignment { x: u8, y: u8 },
    AutoSpacing(bool),
    CounterSpacing(bool),
    FirstOnTop(bool),
    IncludeStrokes(bool),
    Baseline(bool),
    Padding(Quad),
    PaddingSide { side: u8, padding: Scalar },
    Wrap(bool),
    Sizing { horizontal: bool, sizing: AxisSizing },
}

/// Spacing that fills the axis leaves no alignment along it.
pub open spec fn fills_axis(align: PrimaryAlign) -> bool {
    align is SpaceBetween || align is SpaceEvenly
}

/// The cell of the alignment grid, 0 to 2 across and down.
pub open spec fn alignment_cell(layout: AutoLayout) -> (u8, u8) {
    let primary: u8 = match layout.primary_align {
        PrimaryAlign::Center => 1,
        PrimaryAlign::End => 2,
        _ => 0,
    };
    let counter: u8 = match layout.counter_align {
        CounterAlign::Center => 1,
        CounterAlign::End => 2,
        _ => 0,
    };
    if layout.mode is Horizontal {
        (primary, counter)
    } else {
        (counter, primary)
    }
}

pub fn auto_layout_alignment(layout: &AutoLayout) -> (cell: (u8, u8))
    ensures
        cell == alignment_cell(*layout),
{
    let primary: u8 = match layout.primary_align {
        PrimaryAlign::Center => 1,
        PrimaryAlign::End => 2,
        _ => 0,
    };
    let counter: u8 = match layout.counter_align {
        CounterAlign::Center => 1,
        CounterAlign::End => 2,
        _ => 0,
    };
    match layout.mode {
        LayoutMode::Horizontal => (primary, counter),
        LayoutMode::Vertical => (counter, primary),
    }
}

pub open spec fn primary_at(cell: u8) -> PrimaryAlign {
    if cell == 0 {
        PrimaryAlign::Start
    } else if cell == 1 {
        PrimaryAlign::Center
    } else {
        PrimaryAlign::End
    }
}

pub open spec fn counter_at(cell: u8) -> CounterAlign {
    if cell == 0 {
        CounterAlign::Start
    } else if cell == 1 {
        CounterAlign::Center
    } else {
        CounterAlign::End
    }
}

/// The layout aligned to a cell. Spacing that fills the axis stays.
pub open spec fn aligned(layout: AutoLayout, x: u8, y: u8) -> AutoLayout {
    let primary = if layout.mode is Horizontal {
        x
    } else {
        y
    };
    let counter = if layout.mode is Horizontal {
        y
    } else {
        x
    };
    AutoLayout {
        primary_align: if fills_axis(layout.primary_align) {
            layout.primary_align
        } else {
            primary_at(primary)
        },
        counter_align: counter_at(counter),
        ..layout
    }
}

pub fn set_auto_layout_alignment(layout: &mut AutoLayout, x: u8, y: u8)
    ensures
        *final(layout) == aligned(*old(layout), x, y),
{
    let (primary, counter): (u8, u8) = match layout.mode {
        LayoutMode::Horizontal => (x, y),
        LayoutMode::Vertical => (y, x),
    };
    match layout.primary_align {
        PrimaryAlign::SpaceBetween | PrimaryAlign::SpaceEvenly => {},
        _ => {
            layout.primary_align = if primary == 0 {
                PrimaryAlign::Start
            } else if primary == 1 {
                PrimaryAlign::Center
            } else {
                PrimaryAlign::End
            };
        },
    }
    layout.counter_align = if counter == 0 {
        CounterAlign::Start
    } else if counter == 1 {
        CounterAlign::Center
    } else {
        CounterAlign::End
    };
}

/// The cell that a layout is aligned to is the one it shows, unless spacing
/// fills the axis.
pub proof fn lemma_alignment_round_trip(layout: AutoLayout, x: u8, y: u8)
    requires
        x <= 2,
        y <= 2,
        !fills_axis(layout.primary_align),
    ensures
        alignment_cell(aligned(layout, x, y)) == (x, y),
{
}

/// Aligning to the cell that is shown changes nothing that is shown.
pub proof fn lemma_alignment_stable(layout: AutoLayout)
    ensures
        alignment_cell(
            aligned(layout, alignment_cell(layout).0, alignment_cell(layout).1),
        ) == alignment_cell(layout),
{
}

pub open spec fn layout_edited(layout: AutoLayout, edit: LayoutEdit) -> AutoLayout {
    match edit {
        LayoutEdit::Alignment { x, y } => aligned(layout, x, y),
        LayoutEdit::AutoSpacing(auto) => AutoLayout {
            primary_align: if auto {
                PrimaryAlign::SpaceBetween
            } else if fills_axis(layout.primary_align) {
                PrimaryAlign::Start
            } else {
                layout.primary_align
            },
            ..layout
        },
        LayoutEdit::CounterSpacing(between) => AutoLayout {
            counter_auto_spacing: between,
            ..layout
        },
        LayoutEdit::FirstOnTop(first) => AutoLayout { reverse_z: first, ..layout },
        LayoutEdit::IncludeStrokes(counted) => AutoLayout { include_strokes: counted, ..layout },
        LayoutEdit::Baseline(baseline) => AutoLayout {
            counter_align: if baseline {
                CounterAlign::Baseline
            } else {
                CounterAlign::Start
            },
            ..layout
        },
        LayoutEdit::Padding(padding) => AutoLayout { padding: padding, ..layout },
        LayoutEdit::PaddingSide { side, padding } => AutoLayout {
            padding: layout.padding.with(side, padding),
            ..layout
        },
        LayoutEdit::Wrap(wrap) => AutoLayout { wrap: wrap, ..layout },
        LayoutEdit::Sizing { horizontal, sizing } => if horizontal == (layout.mode is Horizontal) {
            AutoLayout { primary_sizing: sizing, ..layout }
        } else {
            AutoLayout { counter_sizing: sizing, ..layout }
        },
    }
}

fn edit_layout(old: AutoLayout, edit: LayoutEdit) -> (layout: AutoLayout)
    ensures
        layout == layout_edited(old, edit),
{
    let mut layout = old;
    match edit {
        LayoutEdit::Alignment { x, y } => {
            set_auto_layout_alignment(&mut layout, x, y);
        },
        LayoutEdit::AutoSpacing(auto) => {
            if auto {
                layout.primary_align = PrimaryAlign::SpaceBetween;
            } else {
                match layout.primary_align {
                    PrimaryAlign::SpaceBetween | PrimaryAlign::SpaceEvenly => {
                        layout.primary_align = PrimaryAlign::Start;
                    },
                    _ => {},
                }
            }
        },
        LayoutEdit::CounterSpacing(between) => {
            layout.counter_auto_spacing = between;
        },
        LayoutEdit::FirstOnTop(first) => {
            layout.reverse_z = first;
        },
        LayoutEdit::IncludeStrokes(counted) => {
            layout.include_strokes = counted;
        },
        LayoutEdit::Baseline(baseline) => {
            layout.counter_align = if baseline {
                CounterAlign::Baseline
            } else {
                CounterAlign::Start
            };
        },
        LayoutEdit::Padding(padding) => {
            layout.padding = padding;
        },
        LayoutEdit::PaddingSide { side, padding } => {
            layout.padding = layout.padding.with(side, padding);
        },
        LayoutEdit::Wrap(wrap) => {
            layout.wrap = wrap;
        },
        LayoutEdit::Sizing { horizontal, sizing } => {
            let along = match layout.mode {
                LayoutMode::Horizontal => true,
                LayoutMode::Vertical => false,
            };
            if horizontal == along {
                layout.primary_sizing = sizing;
            } else {
                layout.counter_sizing = sizing;
            }
        },
    }
    layout
}

// ---------------------------------------------------------------------------
// Parametric shapes
// ---------------------------------------------------------------------------

#[derive(Clone, Copy, Debug, PartialEq, Eq, Structural)]
pub enum ShapeEdit {
    PolygonPoints(u32),
    StarPoints(u32),
    StarInner(Scalar),
    ArcStart(Scalar),
    ArcSweep(Scalar),
    ArcInner(Scalar),
}

/// The shape after an edit; one of another kind stays.
pub open spec fn shape_edited(shape: ParametricShape, edit: ShapeEdit) -> ParametricShape {
    match (shape, edit) {
        (ParametricShape::Polygon { .. }, ShapeEdit::PolygonPoints(points)) =>
            ParametricShape::Polygon { points: points },
        (ParametricShape::Star { inner_ratio, .. }, ShapeEdit::StarPoints(points)) =>
            ParametricShape::Star { points: points, inner_ratio: inner_ratio },
        (ParametricShape::Star { points, .. }, ShapeEdit::StarInner(inner)) =>
            ParametricShape::Star { points: points, inner_ratio: inner },
        (ParametricShape::Arc { sweep_rad, inner_ratio, .. }, ShapeEdit::ArcStart(start)) =>
            ParametricShape::Arc {
                start_rad: start,
                sweep_rad: sweep_rad,
                inner_ratio: inner_ratio,
            },
        (ParametricShape::Arc { start_rad, inner_ratio, .. }, ShapeEdit::ArcSweep(sweep)) =>
            ParametricShape::Arc {
                start_rad: start_rad,
                sweep_rad: sweep,
                inner_ratio: inner_ratio,
            },
        (ParametricShape::Arc { start_rad, sweep_rad, .. }, ShapeEdit::ArcInner(inner)) =>
            ParametricShape::Arc { start_rad: start_rad, sweep_rad: sweep_rad, inner_ratio: inner },
        _ => shape,
    }
}

pub fn edit_shape(shape: ParametricShape, edit: ShapeEdit) -> (r: ParametricShape)
    ensures
        r == shape_edited(shape, edit),
{
    match (shape, edit) {
        (ParametricShape::Polygon { .. }, ShapeEdit::PolygonPoints(points)) =>
            ParametricShape::Polygon { points },
        (ParametricShape::Star { inner_ratio, .. }, ShapeEdit::StarPoints(points)) =>
            ParametricShape::Star { points, inner_ratio },
        (ParametricShape::Star { points, .. }, ShapeEdit::StarInner(inner_ratio)) =>
            ParametricShape::Star { points, inner_ratio },
        (ParametricShape::Arc { sweep_rad, inner_ratio, .. }, ShapeEdit::ArcStart(start_rad)) =>
            ParametricShape::Arc { start_rad, sweep_rad, inner_ratio },
        (ParametricShape::Arc { start_rad, inner_ratio, .. }, ShapeEdit::ArcSweep(sweep_rad)) =>
            ParametricShape::Arc { start_rad, sweep_rad, inner_ratio },
        (ParametricShape::Arc { start_rad, sweep_rad, .. }, ShapeEdit::ArcInner(inner_ratio)) =>
            ParametricShape::Arc { start_rad, sweep_rad, inner_ratio },
        _ => shape,
    }
}

/// The shape of a layer and the box it is drawn in: its own, or else the rough
/// bounds of its outline.
pub open spec fn drawn_shape(data: NodeData, rough_size: Option<Size>) -> Option<(
    ParametricShape,
    Size,
)> {
    match data {
        NodeData::Vector(vector) => match vector.parametric {
            Some(shape) => match vector.local_size {
                Some(size) => Some((shape, size)),
                None => match rough_size {
                    Some(size) => Some((shape, size)),
                    None => None,
                },
            },
            None => None,
        },
        _ => None,
    }
}

pub fn shape_and_size(data: &NodeData, rough_size: Option<Size>) -> (r: Option<(
    ParametricShape,
    Size,
)>)
    ensures
        r == drawn_shape(*data, rough_size),
{
    match data {
        NodeData::Vector(vector) => match vector.parametric {
            Some(shape) => match vector.local_size {
                Some(size) => Some((shape, size)),
                None => match rough_size {
                    Some(size) => Some((shape, size)),
                    None => None,
                },
            },
            None => None,
        },
        _ => None,
    }
}

// ---------------------------------------------------------------------------
// Edits of the data
// ---------------------------------------------------------------------------

#[derive(Debug, PartialEq)]
pub enum DataEdit {
    Strokes(StrokeEdit),
    Text(TextEdit),
    Layout(LayoutEdit),
    IndependentCorners(bool),
    Boolean(BooleanOp),
    /// A shape with its outline drawn anew.
    Shape { shape: ParametricShape, path: PathData },
    /// The layout of a frame set or taken away; a frame that gets its first one
    /// and has no size keeps the size it shows.
    Mode { mode: Option<LayoutMode>, shown: Option<Size> },
}

/// The corner radii once they are made independent, or one again.
pub open spec fn corners_edited(
    radius: Option<Scalar>,
    radii: Option<Quad>,
    independent: bool,
) -> (Option<Scalar>, Option<Quad>) {
    if independent {
        match radii {
            Some(radii) => (radius, Some(radii)),
            None => (
                radius,
                Some(
                    Quad::all(
                        match radius {
                            Some(radius) => radius,
                            None => Scalar::of(crate::scalar::ZERO),
                        },
                    ),
                ),
            ),
        }
    } else {
        match radii {
            Some(radii) => (
                if Scalar::of(crate::scalar::ZERO).lt(radii.first) {
                    Some(radii.first)
                } else {
                    None
                },
                None,
            ),
            None => (radius, None),
        }
    }
}

fn edit_corners(radius: Option<Scalar>, radii: Option<Quad>, independent: bool) -> (r: (
    Option<Scalar>,
    Option<Quad>,
))
    ensures
        r == corners_edited(radius, radii, independent),
{
    if independent {
        match radii {
            Some(radii) => (radius, Some(radii)),
            None => {
                let uniform = match radius {
                    Some(radius) => radius,
                    None => Scalar::of(crate::scalar::ZERO),
                };
                (radius, Some(Quad::all(uniform)))
            },
        }
    } else {
        match radii {
            Some(radii) => if Scalar::of(crate::scalar::ZERO).less(radii.first) {
                (Some(radii.first), None)
            } else {
                (None, None)
            },
            None => (radius, None),
        }
    }
}

/// The layout of a group once its mode is set or taken away.
pub open spec fn mode_set(
    group: GroupNode,
    mode: Option<LayoutMode>,
    shown: Option<Size>,
) -> GroupNode {
    match mode {
        None => GroupNode { auto_layout: None, ..group },
        Some(mode) => match group.auto_layout {
            Some(layout) => GroupNode {
                auto_layout: Some(AutoLayout { mode: mode, ..layout }),
                ..group
            },
            None => GroupNode {
                auto_layout: Some(AutoLayout::plain(mode)),
                local_size: if group.local_size is None && group.clip_size is None {
                    shown
                } else {
                    group.local_size
                },
                ..group
            },
        },
    }
}

/// The layer has what the edit is about.
pub open spec fn concerns(edit: DataEdit, data: NodeData) -> bool {
    match edit {
        DataEdit::Strokes(_) => data is Vector || data is Group,
        DataEdit::Text(_) => data is Text,
        DataEdit::Layout(_) => data matches NodeData::Group(group) && group.auto_layout is Some,
        DataEdit::IndependentCorners(_) => data is Vector || data is Group,
        DataEdit::Boolean(_) => data is Boolean,
        DataEdit::Shape { .. } => data is Vector,
        DataEdit::Mode { .. } => data is Group,
    }
}

/// The data after an edit that concerns it.
pub open spec fn data_edited(old: NodeData, edit: DataEdit, new: NodeData) -> bool {
    match edit {
        DataEdit::Strokes(edit) => match (old, new) {
            (NodeData::Vector(a), NodeData::Vector(b)) => b == (VectorNode {
                strokes: b.strokes,
                ..a
            }) && b.strokes@ == strokes_edited(a.strokes@, edit),
            (NodeData::Group(a), NodeData::Group(b)) => b == (GroupNode { strokes: b.strokes, ..a })
                && b.strokes@ == strokes_edited(a.strokes@, edit),
            _ => false,
        },
        DataEdit::Text(edit) => match (old, new) {
            (NodeData::Text(a), NodeData::Text(b)) => text_edited(a, edit, b),
            _ => false,
        },
        DataEdit::Layout(edit) => match (old, new) {
            (NodeData::Group(a), NodeData::Group(b)) => a.auto_layout matches Some(layout) && b == (
            GroupNode { auto_layout: Some(layout_edited(layout, edit)), ..a }),
            _ => false,
        },
        DataEdit::IndependentCorners(independent) => match (old, new) {
            (NodeData::Vector(a), NodeData::Vector(b)) => b == (VectorNode {
                corner_radius: corners_edited(a.corner_radius, a.corner_radii, independent).0,
                corner_radii: corners_edited(a.corner_radius, a.corner_radii, independent).1,
                ..a
            }),
            (NodeData::Group(a), NodeData::Group(b)) => b == (GroupNode {
                corner_radius: corners_edited(a.corner_radius, a.corner_radii, independent).0,
                corner_radii: corners_edited(a.corner_radius, a.corner_radii, independent).1,
                ..a
            }),
            _ => false,
        },
        DataEdit::Boolean(op) => match (old, new) {
            (NodeData::Boolean(a), NodeData::Boolean(b)) => b == (BooleanNode { op: op, ..a }),
            _ => false,
        },
        DataEdit::Shape { shape, path } => match (old, new) {
            (NodeData::Vector(a), NodeData::Vector(b)) => b == (VectorNode {
                parametric: Some(shape),
                path: path,
                ..a
            }),
            _ => false,
        },
        DataEdit::Mode { mode, shown } => match (old, new) {
            (NodeData::Group(a), NodeData::Group(b)) => b == mode_set(a, mode, shown),
            _ => false,
        },
    }
}

/// The data after an edit, where it concerns the layer.
pub fn edit_data(old: &NodeData, edit: &DataEdit) -> (new: Option<NodeData>)
    ensures
        match new {
            Some(new) => concerns(*edit, *old) && data_edited(*old, *edit, new),
            None => !concerns(*edit, *old),
        },
{
    match edit {
        DataEdit::Strokes(edit) => match old {
            NodeData::Vector(vector) => Some(
                NodeData::Vector(
                    VectorNode {
                        strokes: Arc::new(edit_strokes(&vector.strokes, edit)),
                        ..vector.copy()
                    },
                ),
            ),
            NodeData::Group(group) => Some(
                NodeData::Group(
                    GroupNode {
                        strokes: Arc::new(edit_strokes(&group.strokes, edit)),
                        ..group.copy()
                    },
                ),
            ),
            _ => None,
        },
        DataEdit::Text(edit) => match old {
            NodeData::Text(text) => Some(NodeData::Text(edit_text(text, edit))),
            _ => None,
        },
        DataEdit::Layout(edit) => match old {
            NodeData::Group(group) => match group.auto_layout {
                Some(layout) => Some(
                    NodeData::Group(
                        GroupNode {
                            auto_layout: Some(edit_layout(layout, *edit)),
                            ..group.copy()
                        },
                    ),
                ),
                None => None,
            },
            _ => None,
        },
        DataEdit::IndependentCorners(independent) => match old {
            NodeData::Vector(vector) => {
                let (corner_radius, corner_radii) = edit_corners(
                    vector.corner_radius,
                    vector.corner_radii,
                    *independent,
                );
                Some(
                    NodeData::Vector(VectorNode { corner_radius, corner_radii, ..vector.copy() }),
                )
            },
            NodeData::Group(group) => {
                let (corner_radius, corner_radii) = edit_corners(
                    group.corner_radius,
                    group.corner_radii,
                    *independent,
                );
                Some(NodeData::Group(GroupNode { corner_radius, corner_radii, ..group.copy() }))
            },
            _ => None,
        },
        DataEdit::Boolean(op) => match old {
            NodeData::Boolean(boolean) => Some(
                NodeData::Boolean(BooleanNode { op: *op, ..boolean.copy() }),
            ),
            _ => None,
        },
        DataEdit::Shape { shape, path } => match old {
            NodeData::Vector(vector) => Some(
                NodeData::Vector(
                    VectorNode { parametric: Some(*shape), path: path.copy(), ..vector.copy() },
                ),
            ),
            _ => None,
        },
        DataEdit::Mode { mode, shown } => match old {
            NodeData::Group(group) => Some(NodeData::Group(set_mode(group, *mode, *shown))),
            _ => None,
        },
    }
}

fn set_mode(group: &GroupNode, mode: Option<LayoutMode>, shown: Option<Size>) -> (r: GroupNode)
    ensures
        r == mode_set(*group, mode, shown),
{
    let copy = group.copy();
    match mode {
        None => GroupNode { auto_layout: None, ..copy },
        Some(mode) => match copy.auto_layout {
            Some(layout) => GroupNode {
                auto_layout: Some(AutoLayout { mode, ..layout }),
                ..copy
            },
            None => {
                let local_size = if copy.local_size.is_none() && copy.clip_size.is_none() {
                    shown
                } else {
                    copy.local_size
                };
                GroupNode { auto_layout: Some(AutoLayout::plain(mode)), local_size, ..copy }
            },
        },
    }
}

/// One operation that gives the layer new data, and none where they equal the
/// data that it has.
pub open spec fn renews(operations: Seq<Operation>, node: CanvasNode, new: NodeData) -> bool {
    if node.data.alike(new) {
        operations.len() == 0
    } else {
        operations.len() == 1 && crate::layer_context_ops::replaces(operations[0], node, new)
    }
}

/// Gives a layer new data, unless they equal the data that it has.
pub fn renew(node: &CanvasNode, data: NodeData) -> (operations: Vec<Operation>)
    ensures
        renews(operations@, *node, data),
{
    let mut operations: Vec<Operation> = Vec::new();
    if !node.data.is_alike(&data) {
        operations.push(replace_data(node, data));
    }
    operations
}

/// One operation where the edit concerns the layer and changes its data, and else
/// none.
pub open spec fn edits_data(
    operations: Seq<Operation>,
    doc: Doc,
    id: NodeId,
    edit: DataEdit,
) -> bool {
    match crate::scene::find(doc.nodes@, id) {
        Some(node) => if concerns(edit, *node.data) {
            exists|new: NodeData| #[trigger]
                data_edited(*node.data, edit, new) && renews(operations, node, new)
        } else {
            operations.len() == 0
        },
        None => operations.len() == 0,
    }
}

pub fn replace_data_operation(doc: &Doc, id: NodeId, edit: &DataEdit) -> (operations: Vec<
    Operation,
>)
    ensures
        edits_data(operations@, *doc, id, *edit),
{
    if let Some(node) = doc.get(id) {
        if let Some(data) = edit_data(&node.data, edit) {
            assert(data_edited(*node.data, *edit, data));
            return renew(node, data);
        }
    }
    Vec::new()
}

// ---------------------------------------------------------------------------
// A child of a laid-out frame
// ---------------------------------------------------------------------------

#[derive(Clone, Copy, Debug, PartialEq, Eq, Structural)]
pub enum ChildEdit {
    Absolute(bool),
    Stretch(bool),
    Grow(Scalar),
    /// Fill one axis of the parent; `primary` is the axis it lays out along.
    Fill { primary: bool },
    /// No longer fill one axis of the parent.
    Unfill { primary: bool },
}

pub open spec fn child_edited(child: LayoutChild, edit: ChildEdit) -> LayoutChild {
    match edit {
        ChildEdit::Absolute(absolute) => LayoutChild { absolute: absolute, ..child },
        ChildEdit::Stretch(stretch) => LayoutChild {
            align_self: if stretch {
                Some(CounterAlign::Stretch)
            } else {
                None
            },
            ..child
        },
        ChildEdit::Grow(grow) => LayoutChild { grow: grow, ..child },
        ChildEdit::Fill { primary } => if primary {
            LayoutChild { grow: Scalar::of(crate::scalar::ONE), ..child }
        } else {
            LayoutChild { align_self: Some(CounterAlign::Stretch), ..child }
        },
        ChildEdit::Unfill { primary } => if primary {
            LayoutChild { grow: Scalar::of(crate::scalar::ZERO), ..child }
        } else if child.align_self == Some(CounterAlign::Stretch) {
            LayoutChild { align_self: None, ..child }
        } else {
            child
        },
    }
}

fn edit_child(child: LayoutChild, edit: ChildEdit) -> (r: LayoutChild)
    ensures
        r == child_edited(child, edit),
{
    match edit {
        ChildEdit::Absolute(absolute) => LayoutChild { absolute, ..child },
        ChildEdit::Stretch(stretch) => {
            let align_self = if stretch {
                Some(CounterAlign::Stretch)
            } else {
                None
            };
            LayoutChild { align_self, ..child }
        },
        ChildEdit::Grow(grow) => LayoutChild { grow, ..child },
        ChildEdit::Fill { primary } => if primary {
            LayoutChild { grow: Scalar::of(crate::scalar::ONE), ..child }
        } else {
            LayoutChild { align_self: Some(CounterAlign::Stretch), ..child }
        },
        ChildEdit::Unfill { primary } => if primary {
            LayoutChild { grow: Scalar::of(crate::scalar::ZERO), ..child }
        } else {
            match child.align_self {
                Some(CounterAlign::Stretch) => LayoutChild { align_self: None, ..child },
                _ => child,
            }
        },
    }
}

/// The layout of the frame that a layer stands in.
pub open spec fn layout_above(doc: Doc, id: NodeId) -> Option<AutoLayout> {
    match crate::scene::find(doc.nodes@, id) {
        Some(node) => match node.parent {
            Some(parent) => match crate::scene::find(doc.nodes@, parent) {
                Some(above) => match *above.data {
                    NodeData::Group(group) => group.auto_layout,
                    _ => None,
                },
                None => None,
            },
            None => None,
        },
        None => None,
    }
}

pub fn parent_layout(doc: &Doc, id: NodeId) -> (layout: Option<AutoLayout>)
    ensures
        layout == layout_above(*doc, id),
{
    match doc.get(id) {
        Some(node) => match node.parent {
            Some(parent) => match doc.get(parent) {
                Some(above) => match &*above.data {
                    NodeData::Group(group) => group.auto_layout,
                    _ => None,
                },
                None => None,
            },
            None => None,
        },
        None => None,
    }
}

/// What a layer says to the layout it stands in, nothing where it says nothing
/// of its own.
pub open spec fn said(child: LayoutChild) -> Option<LayoutChild> {
    if child.trivial() {
        None
    } else {
        Some(child)
    }
}

/// Both say the same to a layout.
pub open spec fn says_same(a: Option<LayoutChild>, b: Option<LayoutChild>) -> bool {
    match (a, b) {
        (None, None) => true,
        (Some(a), Some(b)) => a.grow.same(b.grow) && a.absolute == b.absolute && a.align_self
            == b.align_self,
        _ => false,
    }
}

/// What a layer says to its layout before an edit.
pub open spec fn child_before(node: CanvasNode) -> LayoutChild {
    match node.layout_child {
        Some(child) => child,
        None => LayoutChild::plain(),
    }
}

/// One operation where the layer stands in a layout of children and the edit
/// changes something, and else none.
pub open spec fn edits_child(
    operations: Seq<Operation>,
    doc: Doc,
    id: NodeId,
    edit: ChildEdit,
) -> bool {
    match crate::scene::find(doc.nodes@, id) {
        Some(node) => {
            let new = said(child_edited(child_before(node), edit));
            if (layout_above(doc, id) matches Some(layout) && layout.child_layout)
                && !says_same(new, node.layout_child) {
                operations == seq![
                    Operation::SetLayoutChild { id: id, old: node.layout_child, new: new },
                ]
            } else {
                operations.len() == 0
            }
        },
        None => operations.len() == 0,
    }
}

pub fn layout_child_operations(doc: &Doc, id: NodeId, edit: ChildEdit) -> (operations: Vec<
    Operation,
>)
    ensures
        edits_child(operations@, *doc, id, edit),
{
    let mut operations: Vec<Operation> = Vec::new();
    let in_layout = match parent_layout(doc, id) {
        Some(layout) => layout.child_layout,
        None => false,
    };
    if !in_layout {
        return operations;
    }
    if let Some(node) = doc.get(id) {
        let child = match node.layout_child {
            Some(child) => child,
            None => LayoutChild::plain(),
        };
        let edited = edit_child(child, edit);
        let new = if edited.is_trivial() {
            None
        } else {
            Some(edited)
        };
        let changed = match (new, node.layout_child) {
            (None, None) => false,
            (Some(a), Some(b)) => !(a.grow.equals(b.grow) && a.absolute == b.absolute
                && a.align_self == b.align_self),
            _ => true,
        };
        if changed {
            operations.push(Operation::SetLayoutChild { id, old: node.layout_child, new });
            assert(operations@ =~= seq![
                Operation::SetLayoutChild { id: id, old: node.layout_child, new: new },
            ]);
        }
    }
    operations
}

} // verus!
