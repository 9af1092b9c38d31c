//! What the inspector shows of a layer's paints and strokes.

use std::sync::Arc;

use vstd::prelude::*;
use vstd::string::*;

use crate::design_media::PreviewState;
use crate::design_paints::{MediaPlacement, QuarterTurn};
use crate::design_session::{CropSession, CropTool};
use crate::design_shaders::show_assignments;
use crate::design_values::{design_blend_mode, DesignBlendMode, DesignKind, DesignStrokeCap};
use crate::document::{NodeData, Transform};
use crate::ids::{AssetId, NodeId};
use crate::paint::{
    share, BlendMode, Color, CropWindow, Fill, Gradient, GradientStop, ImageAdjust, ImageFitMode,
    PatternFill, Quad, ShaderPropertyAssignment, Stroke, StrokeAlign, StrokeCap, StrokeJoin,
};
use crate::scalar::Scalar;
use crate::text::numbered;

verus! {

/// The kind of a paint in a snapshot of a layer.
#[derive(Clone, Copy, Debug, PartialEq, Eq, Structural)]
pub enum SnapshotKind {
    Solid,
    Gradient,
}

/// One paint of a layer as its snapshot lists it.
#[derive(Debug, PartialEq)]
pub struct PaintSnapshot {
    pub kind: Option<SnapshotKind>,
    pub color: Option<Color>,
    pub gradient: Option<Gradient>,
    pub label: String,
    pub opacity_percent: Option<Scalar>,
    pub visible: bool,
    pub blend: Option<BlendMode>,
}

/// What the host says of a media paint's rotation: the quarter turn it lies at,
/// up to a thousandth of a degree, and `Upright` where it lies at none of the
/// other three; whether it is exactly none; and whether it lies at any of the
/// four.
#[derive(Clone, Copy, Debug, PartialEq, Eq, Structural)]
pub struct TurnFacts {
    pub quarter: QuarterTurn,
    pub exactly_none: bool,
    pub at_quarter: bool,
}

#[derive(Clone, Copy, Debug, PartialEq, Eq, Structural)]
pub enum ShownOpacity {
    /// Fully opaque.
    Full,
    /// An alpha, of which 255 is opaque.
    Alpha(u8),
    Percent(Scalar),
}

#[derive(Debug, PartialEq)]
pub enum ShownPayload {
    Solid(Color),
    Gradient(Gradient),
    Pattern(PatternFill),
    Image { asset: AssetId, placement: MediaPlacement, filters: ImageAdjust },
    Video { asset: AssetId, placement: MediaPlacement, filters: ImageAdjust },
    Shader { shader_id: String, name: String, properties: Vec<ShaderPropertyAssignment> },
    /// A paint that can be looked at only.
    Unknown { source: String, label: String },
}

#[derive(Debug, PartialEq)]
pub struct DesignPaint {
    pub id: String,
    pub payload: ShownPayload,
    pub opacity: ShownOpacity,
    pub visible: bool,
    pub blend: DesignBlendMode,
    pub read_only: bool,
}

pub open spec fn collection_prefix(is_stroke: bool) -> Seq<char> {
    if is_stroke {
        "-stroke-"@
    } else {
        "-fill-"@
    }
}

/// The name of a paint: its layer, its collection and its place.
pub open spec fn paint_id(node: Seq<char>, is_stroke: bool, index: usize) -> Seq<char> {
    node + collection_prefix(is_stroke) + crate::text::decimal(index as nat)
}

pub fn name_paint(node: &str, is_stroke: bool, index: usize) -> (id: String)
    ensures
        id@ == paint_id(node@, is_stroke, index),
{
    let mut prefix = node.to_owned();
    if is_stroke {
        prefix.append("-stroke-");
    } else {
        prefix.append("-fill-");
    }
    numbered(prefix.as_str(), index)
}

/// How a media paint is shown to lie.
pub open spec fn placement_shown(
    mode: ImageFitMode,
    crop: Option<CropWindow>,
    scale: Option<Scalar>,
    quarter: QuarterTurn,
) -> MediaPlacement {
    match crop {
        Some(window) => MediaPlacement::Crop {
            transform: Transform {
                m11: window.width,
                m12: Scalar::of(crate::scalar::ZERO),
                m21: Scalar::of(crate::scalar::ZERO),
                m22: window.height,
                tx: window.x,
                ty: window.y,
            },
        },
        None => match mode {
            ImageFitMode::Fill => MediaPlacement::Fill { rotation: quarter },
            ImageFitMode::Stretch => MediaPlacement::Fill { rotation: quarter },
            ImageFitMode::Fit => MediaPlacement::Fit { rotation: quarter },
            ImageFitMode::Tile => MediaPlacement::Tile {
                scaling_factor: match scale {
                    Some(scale) => scale,
                    None => Scalar::of(crate::scalar::ONE),
                },
                rotation: quarter,
            },
        },
    }
}

pub fn design_media_placement(
    mode: ImageFitMode,
    crop: Option<CropWindow>,
    scale: Option<Scalar>,
    quarter: QuarterTurn,
) -> (placement: MediaPlacement)
    ensures
        placement == placement_shown(mode, crop, scale, quarter),
{
    match crop {
        Some(window) => MediaPlacement::Crop {
            transform: Transform {
                m11: window.width,
                m12: Scalar::of(crate::scalar::ZERO),
                m21: Scalar::of(crate::scalar::ZERO),
                m22: window.height,
                tx: window.x,
                ty: window.y,
            },
        },
        None => match mode {
            ImageFitMode::Fill => MediaPlacement::Fill { rotation: quarter },
            ImageFitMode::Stretch => MediaPlacement::Fill { rotation: quarter },
            ImageFitMode::Fit => MediaPlacement::Fit { rotation: quarter },
            ImageFitMode::Tile => MediaPlacement::Tile {
                scaling_factor: match scale {
                    Some(scale) => scale,
                    None => Scalar::of(crate::scalar::ONE),
                },
                rotation: quarter,
            },
        },
    }
}

/// The largest alpha of a gradient's stops, and none where there are no stops.
pub open spec fn strongest(stops: Seq<GradientStop>) -> u8
    decreases stops.len(),
{
    if stops.len() == 0 {
        0
    } else {
        let rest = strongest(stops.drop_last());
        if stops.last().color.a > rest {
            stops.last().color.a
        } else {
            rest
        }
    }
}

pub(crate) fn strongest_alpha(stops: &Vec<GradientStop>) -> (alpha: u8)
    ensures
        alpha == strongest(stops@),
{
    let mut alpha: u8 = 0;
    let mut i: usize = 0;
    assert(stops@.take(0) =~= Seq::<GradientStop>::empty());
    while i < stops.len()
        invariant
            i <= stops@.len(),
            alpha == strongest(stops@.take(i as int)),
        decreases stops@.len() - i,
    {
        proof {
            assert(stops@.take(i + 1).drop_last() =~= stops@.take(i as int));
            assert(stops@.take(i + 1).last() == stops@[i as int]);
        }
        if stops[i].color.a > alpha {
            alpha = stops[i].color.a;
        }
        i = i + 1;
    }
    assert(stops@.take(stops@.len() as int) =~= stops@);
    alpha
}

/// No alpha of the stops is above the strongest, and one of them is it.
pub proof fn lemma_strongest(stops: Seq<GradientStop>)
    ensures
        forall|i: int| 0 <= i < stops.len() ==> (#[trigger] stops[i]).color.a <= strongest(stops),
        stops.len() > 0 ==> exists|i: int|
            0 <= i < stops.len() && (#[trigger] stops[i]).color.a == strongest(stops),
    decreases stops.len(),
{
    if stops.len() > 0 {
        let front = stops.drop_last();
        lemma_strongest(front);
        assert forall|i: int| 0 <= i < stops.len() implies (#[trigger] stops[i]).color.a
            <= strongest(stops) by {
            if i < front.len() {
                assert(front[i] == stops[i]);
            }
        }
        if stops.last().color.a > strongest(front) || front.len() == 0 {
            assert(stops[stops.len() - 1].color.a == strongest(stops));
        } else {
            let i = choose|i: int|
                0 <= i < front.len() && (#[trigger] front[i]).color.a == strongest(front);
            assert(stops[i].color.a == strongest(stops));
        }
    }
}

/// The name under which an unknown paint's source goes.
pub open spec fn unknown_source(node: Seq<char>, is_stroke: bool, index: usize) -> Seq<char> {
    paint_id(node, is_stroke, index) + "-source"@
}

/// The color of a plain paint whose snapshot names none.
#[verifier::allow_in_spec]
pub fn black() -> Color
    returns
        (Color { r: 0, g: 0, b: 0, a: 255 }),
{
    Color { r: 0, g: 0, b: 0, a: 255 }
}

/// What is shown of a paint before its snapshot has its say: a payload, the
/// opacity that the payload brings, and whether it can only be looked at.
pub open spec fn paint_body(
    node: Seq<char>,
    is_stroke: bool,
    index: usize,
    snapshot: PaintSnapshot,
    fill: Option<Fill>,
    turn: TurnFacts,
    payload: ShownPayload,
    opacity: ShownOpacity,
    read_only: bool,
) -> bool {
    match fill {
        Some(Fill::Pattern { pattern, .. }) => payload == ShownPayload::Pattern(pattern) && opacity
            == ShownOpacity::Full && !read_only,
        Some(Fill::Image { asset, mode, crop, scale, adjust, .. }) => payload == (
        ShownPayload::Image {
            asset: asset,
            placement: placement_shown(mode, crop, scale, turn.quarter),
            filters: adjust,
        }) && opacity == ShownOpacity::Full && read_only == (mode == ImageFitMode::Stretch
            && crop is None || !turn.exactly_none && turn.quarter == QuarterTurn::Upright),
        Some(Fill::Video { video, .. }) => payload == (ShownPayload::Video {
            asset: video.asset,
            placement: placement_shown(video.mode, video.crop, video.scale, turn.quarter),
            filters: video.adjust,
        }) && opacity == ShownOpacity::Full && read_only == (video.mode == ImageFitMode::Stretch
            && video.crop is None || !turn.at_quarter),
        Some(Fill::Shader { shader, .. }) => {
            &&& payload matches ShownPayload::Shader { shader_id, name, properties }
            &&& shader_id == shader.shader_id
            &&& name == shader.name
            &&& properties@ == crate::design_shaders::shown_assignments(shader.properties@)
            &&& opacity == ShownOpacity::Full
            &&& !read_only
        },
        _ => match (snapshot.kind, snapshot.gradient) {
            (Some(SnapshotKind::Solid), _) => {
                let color = match snapshot.color {
                    Some(color) => color,
                    None => black(),
                };
                &&& payload == ShownPayload::Solid(color)
                &&& opacity == ShownOpacity::Alpha(color.a)
                &&& !read_only
            },
            (Some(SnapshotKind::Gradient), Some(gradient)) => payload == ShownPayload::Gradient(
                gradient,
            ) && opacity == ShownOpacity::Alpha(strongest(gradient.stops@)) && !read_only,
            _ => {
                &&& payload matches ShownPayload::Unknown { source, label }
                &&& source@ == unknown_source(node, is_stroke, index)
                &&& label == snapshot.label
                &&& opacity == ShownOpacity::Full
                &&& read_only
            },
        },
    }
}

/// What is shown of a paint. The snapshot's opacity wins, but not for a
/// gradient, and so does its blend mode.
pub open spec fn paint_shown(
    node: Seq<char>,
    is_stroke: bool,
    index: usize,
    snapshot: PaintSnapshot,
    fill: Option<Fill>,
    turn: TurnFacts,
    paint: DesignPaint,
) -> bool {
    &&& paint.id@ == paint_id(node, is_stroke, index)
    &&& paint.visible == snapshot.visible
    &&& paint.blend == (match snapshot.blend {
        Some(blend) => crate::design_values::blend_shown(blend),
        None => DesignBlendMode::Normal,
    })
    &&& exists|opacity: ShownOpacity| #[trigger]
        paint_body(
            node,
            is_stroke,
            index,
            snapshot,
            fill,
            turn,
            paint.payload,
            opacity,
            paint.read_only,
        ) && paint.opacity == (match snapshot.opacity_percent {
            Some(percent) => if snapshot.kind == Some(SnapshotKind::Gradient) {
                opacity
            } else {
                ShownOpacity::Percent(percent)
            },
            None => opacity,
        })
}

fn is_upright(quarter: QuarterTurn) -> (r: bool)
    ensures
        r == (quarter == QuarterTurn::Upright),
{
    quarter == QuarterTurn::Upright
}

fn shown_body(
    node: &str,
    is_stroke: bool,
    index: usize,
    snapshot: &PaintSnapshot,
    fill: Option<&Fill>,
    turn: TurnFacts,
) -> (body: (ShownPayload, ShownOpacity, bool))
    ensures
        paint_body(
            node@,
            is_stroke,
            index,
            *snapshot,
            (match fill {
                Some(fill) => Some(*fill),
                None => None,
            }),
            turn,
            body.0,
            body.1,
            body.2,
        ),
{
    match fill {
        Some(Fill::Pattern { pattern, .. }) => (
            ShownPayload::Pattern(*pattern),
            ShownOpacity::Full,
            false,
        ),
        Some(Fill::Image { asset, mode, crop, scale, adjust, .. }) => (
            ShownPayload::Image {
                asset: *asset,
                placement: design_media_placement(*mode, *crop, *scale, turn.quarter),
                filters: *adjust,
            },
            ShownOpacity::Full,
            *mode == ImageFitMode::Stretch && crop.is_none() || !turn.exactly_none && is_upright(
                turn.quarter,
            ),
        ),
        Some(Fill::Video { video, .. }) => (
            ShownPayload::Video {
                asset: video.asset,
                placement: design_media_placement(
                    video.mode,
                    video.crop,
                    video.scale,
                    turn.quarter,
                ),
                filters: video.adjust,
            },
            ShownOpacity::Full,
            video.mode == ImageFitMode::Stretch && video.crop.is_none() || !turn.at_quarter,
        ),
        Some(Fill::Shader { shader, .. }) => (
            ShownPayload::Shader {
                shader_id: shader.shader_id.clone(),
                name: shader.name.clone(),
                properties: show_assignments(&shader.properties),
            },
            ShownOpacity::Full,
            false,
        ),
        _ => match snapshot.kind {
            Some(SnapshotKind::Solid) => {
                let color = match snapshot.color {
                    Some(color) => color,
                    None => black(),
                };
                (ShownPayload::Solid(color), ShownOpacity::Alpha(color.a), false)
            },
            Some(SnapshotKind::Gradient) => match &snapshot.gradient {
                Some(gradient) => (
                    ShownPayload::Gradient(gradient.copy()),
                    ShownOpacity::Alpha(strongest_alpha(&gradient.stops)),
                    false,
                ),
                None => unknown_body(node, is_stroke, index, snapshot),
            },
            None => unknown_body(node, is_stroke, index, snapshot),
        },
    }
}

fn unknown_body(node: &str, is_stroke: bool, index: usize, snapshot: &PaintSnapshot) -> (body: (
    ShownPayload,
    ShownOpacity,
    bool,
))
    ensures
        body.0 matches ShownPayload::Unknown { source, label } && source@ == unknown_source(
            node@,
            is_stroke,
            index,
        ) && label == snapshot.label,
        body.1 == ShownOpacity::Full,
        body.2,
{
    let mut source = name_paint(node, is_stroke, index);
    source.append("-source");
    (
        ShownPayload::Unknown { source, label: snapshot.label.clone() },
        ShownOpacity::Full,
        true,
    )
}

/// One paint of a layer as the inspector shows it.
pub fn design_paint(
    node: &str,
    is_stroke: bool,
    index: usize,
    snapshot: &PaintSnapshot,
    fill: Option<&Fill>,
    turn: TurnFacts,
) -> (paint: DesignPaint)
    ensures
        paint_shown(
            node@,
            is_stroke,
            index,
            *snapshot,
            (match fill {
                Some(fill) => Some(*fill),
                None => None,
            }),
            turn,
            paint,
        ),
{
    let (payload, own, read_only) = shown_body(node, is_stroke, index, snapshot, fill, turn);
    let gradient = match snapshot.kind {
        Some(SnapshotKind::Gradient) => true,
        _ => false,
    };
    let opacity = match snapshot.opacity_percent {
        Some(percent) => if gradient {
            own
        } else {
            ShownOpacity::Percent(percent)
        },
        None => own,
    };
    let blend = match snapshot.blend {
        Some(blend) => design_blend_mode(blend),
        None => DesignBlendMode::Normal,
    };
    let paint = DesignPaint {
        id: name_paint(node, is_stroke, index),
        payload,
        opacity,
        visible: snapshot.visible,
        blend,
        read_only,
    };
    proof {
        let fill_seen = match fill {
            Some(fill) => Some(*fill),
            None => None,
        };
        assert(paint_body(
            node@,
            is_stroke,
            index,
            *snapshot,
            fill_seen,
            turn,
            paint.payload,
            own,
            paint.read_only,
        ));
    }
    paint
}

/// The rotation facts of a paint, where the host gave some.
pub open spec fn turn_at(turns: Seq<TurnFacts>, index: int) -> TurnFacts {
    if index < turns.len() {
        turns[index]
    } else {
        TurnFacts { quarter: QuarterTurn::Upright, exactly_none: true, at_quarter: true }
    }
}

pub fn turn_of(turns: &Vec<TurnFacts>, index: usize) -> (turn: TurnFacts)
    ensures
        turn == turn_at(turns@, index as int),
{
    if index < turns.len() {
        turns[index]
    } else {
        TurnFacts { quarter: QuarterTurn::Upright, exactly_none: true, at_quarter: true }
    }
}

/// The paints of a collection, one for each line of the snapshot, in order.
pub open spec fn paints_shown(
    node: Seq<char>,
    data: NodeData,
    is_stroke: bool,
    snapshots: Seq<PaintSnapshot>,
    turns: Seq<TurnFacts>,
    paints: Seq<DesignPaint>,
) -> bool {
    &&& paints.len() == snapshots.len()
    &&& forall|i: int|
        0 <= i < snapshots.len() ==> paint_shown(
            node,
            is_stroke,
            i as usize,
            #[trigger] snapshots[i],
            crate::design_paints::paint_at(data, is_stroke, i),
            turn_at(turns, i),
            paints[i],
        )
}

/// The paints of a collection.
pub fn design_paint_list(
    node: &str,
    data: &NodeData,
    is_stroke: bool,
    snapshots: &Vec<PaintSnapshot>,
    turns: &Vec<TurnFacts>,
) -> (paints: Vec<DesignPaint>)
    ensures
        paints_shown(node@, *data, is_stroke, snapshots@, turns@, paints@),
{
    let mut paints: Vec<DesignPaint> = Vec::new();
    let mut i: usize = 0;
    while i < snapshots.len()
        invariant
            i <= snapshots@.len(),
            paints@.len() == i,
            forall|k: int|
                0 <= k < i ==> paint_shown(
                    node@,
                    is_stroke,
                    k as usize,
                    #[trigger] snapshots@[k],
                    crate::design_paints::paint_at(*data, is_stroke, k),
                    turn_at(turns@, k),
                    paints@[k],
                ),
        decreases snapshots@.len() - i,
    {
        let fill = crate::design_paints::paint_in(data, is_stroke, i);
        let paint = design_paint(node, is_stroke, i, &snapshots[i], fill, turn_of(turns, i));
        paints.push(paint);
        i = i + 1;
    }
    paints
}

// ---------------------------------------------------------------------------
// Strokes
// ---------------------------------------------------------------------------

/// The strokes of a layer as the inspector shows them: the settings are those of
/// the first.
#[derive(Debug, PartialEq)]
pub struct DesignStroke {
    pub paints: Vec<DesignPaint>,
    pub weight: Scalar,
    /// Widths by side, where the sides differ.
    pub sides: Option<Quad>,
    pub align: StrokeAlign,
    pub cap: DesignStrokeCap,
    pub join: StrokeJoin,
    pub miter_limit: Scalar,
    /// Lengths of dashes and gaps; a solid stroke has none.
    pub dashes: Arc<Vec<Scalar>>,
    /// One cap is offered for both ends.
    pub shared_ends: bool,
}

pub open spec fn cap_shown(cap: StrokeCap) -> DesignStrokeCap {
    match cap {
        StrokeCap::Butt => DesignStrokeCap::Plain,
        StrokeCap::Round => DesignStrokeCap::Round,
        StrokeCap::Square => DesignStrokeCap::Square,
    }
}

fn show_cap(cap: StrokeCap) -> (r: DesignStrokeCap)
    ensures
        r == cap_shown(cap),
{
    match cap {
        StrokeCap::Butt => DesignStrokeCap::Plain,
        StrokeCap::Round => DesignStrokeCap::Round,
        StrokeCap::Square => DesignStrokeCap::Square,
    }
}

/// Kinds of layers that have two ends.
pub open spec fn has_ends(kind: DesignKind) -> bool {
    kind == DesignKind::Line || kind == DesignKind::Arrow || kind == DesignKind::Vector || kind
        == DesignKind::Pen || kind == DesignKind::Pencil
}

/// What is shown of a layer's strokes; nothing where it has none.
pub open spec fn stroke_shown(
    node: Seq<char>,
    kind: DesignKind,
    data: NodeData,
    snapshots: Seq<PaintSnapshot>,
    turns: Seq<TurnFacts>,
    r: Option<DesignStroke>,
) -> bool {
    let strokes = crate::design_paints::stroke_slots(data);
    if strokes.len() == 0 {
        r is None
    } else {
        let first = strokes[0];
        &&& r matches Some(stroke)
        &&& paints_shown(node, data, true, snapshots, turns, stroke.paints@)
        &&& stroke.weight == first.width
        &&& stroke.sides == first.per_side
        &&& stroke.align == first.align
        &&& stroke.cap == cap_shown(first.cap)
        &&& stroke.join == first.join
        &&& stroke.miter_limit == first.miter_limit
        &&& stroke.dashes == first.dash
        &&& stroke.shared_ends == has_ends(kind)
    }
}

pub fn design_stroke(
    node: &str,
    kind: DesignKind,
    data: &NodeData,
    snapshots: &Vec<PaintSnapshot>,
    turns: &Vec<TurnFacts>,
) -> (r: Option<DesignStroke>)
    ensures
        stroke_shown(node@, kind, *data, snapshots@, turns@, r),
{
    let strokes: &Vec<Stroke> = match data {
        NodeData::Vector(vector) => &vector.strokes,
        NodeData::Group(group) => &group.strokes,
        _ => {
            return None;
        },
    };
    if strokes.len() == 0 {
        return None;
    }
    let first = &strokes[0];
    let paints = design_paint_list(node, data, true, snapshots, turns);
    Some(
        DesignStroke {
            paints,
            weight: first.width,
            sides: first.per_side,
            align: first.align,
            cap: show_cap(first.cap),
            join: first.join,
            miter_limit: first.miter_limit,
            dashes: share(&first.dash),
            shared_ends: kind == DesignKind::Line || kind == DesignKind::Arrow || kind
                == DesignKind::Vector || kind == DesignKind::Pen || kind == DesignKind::Pencil,
        },
    )
}

// ---------------------------------------------------------------------------
// Media paints
// ---------------------------------------------------------------------------

/// A place in a layer's paints that an open crop works on.
#[derive(Clone, Copy, Debug, PartialEq, Eq, Structural)]
pub struct CropPlace {
    pub node: NodeId,
    pub is_stroke: bool,
    pub index: usize,
}

/// A picture or a video among a layer's paints.
#[derive(Debug, PartialEq)]
pub struct MediaView {
    pub is_stroke: bool,
    pub index: usize,
    pub paint_id: String,
    /// The video whose preview belongs here, and how that stands.
    pub video: Option<AssetId>,
    pub preview: Option<PreviewState>,
    /// The tool of the open crop, where it works on this paint.
    pub crop: Option<CropTool>,
}

/// How the preview of a video stands.
#[derive(Debug, PartialEq)]
pub struct VideoPreview {
    pub asset: AssetId,
    pub state: PreviewState,
}

/// How the preview of a video stands; one that is not known is loading.
pub open spec fn preview_of(previews: Seq<VideoPreview>, asset: AssetId) -> PreviewState
    decreases previews.len(),
{
    if previews.len() == 0 {
        PreviewState::Loading
    } else if previews[0].asset == asset {
        previews[0].state
    } else {
        preview_of(previews.skip(1), asset)
    }
}

fn find_preview(previews: &Vec<VideoPreview>, asset: AssetId) -> (state: PreviewState)
    ensures
        state == preview_of(previews@, asset),
{
    let mut i: usize = 0;
    assert(previews@.skip(0) =~= previews@);
    while i < previews.len()
        invariant
            i <= previews@.len(),
            preview_of(previews@, asset) == preview_of(previews@.skip(i as int), asset),
        decreases previews@.len() - i,
    {
        assert(previews@.skip(i as int)[0] == previews@[i as int]);
        if previews[i].asset == asset {
            return previews[i].state.copy();
        }
        assert(previews@.skip(i as int).skip(1) =~= previews@.skip(i + 1));
        i = i + 1;
    }
    PreviewState::Loading
}

pub open spec fn is_media(paint: DesignPaint) -> bool {
    paint.payload is Image || paint.payload is Video
}

pub open spec fn video_shown(payload: ShownPayload) -> Option<AssetId> {
    match payload {
        ShownPayload::Video { asset, .. } => Some(asset),
        _ => None,
    }
}

/// How many of a list's first paints are media.
pub open spec fn media_before(paints: Seq<DesignPaint>, end: int) -> int
    decreases end,
{
    if end <= 0 {
        0
    } else {
        media_before(paints, end - 1) + if is_media(paints[end - 1]) {
            1int
        } else {
            0
        }
    }
}

/// The view stands for the paint at a place.
pub open spec fn views_paint(
    view: MediaView,
    node: NodeId,
    paint: DesignPaint,
    is_stroke: bool,
    index: int,
    crop: Option<CropSession>,
    previews: Seq<VideoPreview>,
) -> bool {
    &&& view.is_stroke == is_stroke
    &&& view.index == index
    &&& view.paint_id == paint.id
    &&& view.video == video_shown(paint.payload)
    &&& view.preview == (match video_shown(paint.payload) {
        Some(asset) => Some(preview_of(previews, asset)),
        None => None,
    })
    &&& view.crop == (match crop {
        Some(session) => if session.place.node == node && session.place.is_stroke == is_stroke
            && session.place.index == index {
            Some(session.tool)
        } else {
            None
        },
        None => None,
    })
}

/// The views stand for the media among the paints, each once and in order.
pub open spec fn media_listed(
    views: Seq<MediaView>,
    node: NodeId,
    paints: Seq<DesignPaint>,
    is_stroke: bool,
    crop: Option<CropSession>,
    previews: Seq<VideoPreview>,
) -> bool {
    &&& views.len() == media_before(paints, paints.len() as int)
    &&& forall|i: int|
        #![trigger paints[i]]
        0 <= i < paints.len() && is_media(paints[i]) ==> 0 <= media_before(paints, i)
            < views.len() && views_paint(
            views[media_before(paints, i)],
            node,
            paints[i],
            is_stroke,
            i,
            crop,
            previews,
        )
}

proof fn lemma_media_before_grows(paints: Seq<DesignPaint>, a: int, b: int)
    requires
        0 <= a <= b,
    ensures
        0 <= media_before(paints, a) <= media_before(paints, b),
    decreases b,
{
    if a < b {
        lemma_media_before_grows(paints, a, b - 1);
    } else if a > 0 {
        lemma_media_before_grows(paints, a - 1, a - 1);
    }
}

fn media_views(
    node: NodeId,
    paints: &Vec<DesignPaint>,
    is_stroke: bool,
    crop: Option<CropSession>,
    previews: &Vec<VideoPreview>,
) -> (views: Vec<MediaView>)
    ensures
        media_listed(views@, node, paints@, is_stroke, crop, previews@),
{
    let mut views: Vec<MediaView> = Vec::new();
    let mut i: usize = 0;
    while i < paints.len()
        invariant
            i <= paints@.len(),
            views@.len() == media_before(paints@, i as int),
            forall|k: int|
                #![trigger paints@[k]]
                0 <= k < i && is_media(paints@[k]) ==> 0 <= media_before(paints@, k) < views@.len()
                    && views_paint(
                    views@[media_before(paints@, k)],
                    node,
                    paints@[k],
                    is_stroke,
                    k,
                    crop,
                    previews@,
                ),
        decreases paints@.len() - i,
    {
        let paint = &paints[i];
        let tool = match crop {
            Some(session) => if session.place.node == node && session.place.is_stroke == is_stroke
                && session.place.index == i {
                Some(session.tool)
            } else {
                None
            },
            None => None,
        };
        let ghost before = views@;
        match &paint.payload {
            ShownPayload::Image { .. } => {
                views.push(
                    MediaView {
                        is_stroke,
                        index: i,
                        paint_id: paint.id.clone(),
                        video: None,
                        preview: None,
                        crop: tool,
                    },
                );
            },
            ShownPayload::Video { asset, .. } => {
                views.push(
                    MediaView {
                        is_stroke,
                        index: i,
                        paint_id: paint.id.clone(),
                        video: Some(*asset),
                        preview: Some(find_preview(previews, *asset)),
                        crop: tool,
                    },
                );
            },
            _ => {},
        }
        proof {
            assert forall|k: int|
                #![trigger paints@[k]]
                0 <= k < i + 1 && is_media(paints@[k]) implies 0 <= media_before(paints@, k)
                < views@.len() && views_paint(
                views@[media_before(paints@, k)],
                node,
                paints@[k],
                is_stroke,
                k,
                crop,
                previews@,
            ) by {
                if k < i {
                    assert(views@[media_before(paints@, k)] == before[media_before(paints@, k)]);
                } else {
                    lemma_media_before_grows(paints@, 0, i as int);
                }
            }
        }
        i = i + 1;
    }
    views
}

/// The media among a layer's fills, and then those among its strokes.
pub fn media_paint_view_data(
    node: NodeId,
    fills: &Vec<DesignPaint>,
    stroke: &Option<DesignStroke>,
    crop: Option<CropSession>,
    previews: &Vec<VideoPreview>,
) -> (views: (Vec<MediaView>, Vec<MediaView>))
    ensures
        media_listed(views.0@, node, fills@, false, crop, previews@),
        match *stroke {
            Some(stroke) => media_listed(views.1@, node, stroke.paints@, true, crop, previews@),
            None => views.1@.len() == 0,
        },
{
    let filled = media_views(node, fills, false, crop, previews);
    let stroked = match stroke {
        Some(stroke) => media_views(node, &stroke.paints, true, crop, previews),
        None => Vec::new(),
    };
    (filled, stroked)
}

// ---------------------------------------------------------------------------
// Laws
// ---------------------------------------------------------------------------

/// A placement that is kept shows as itself, given that its turn is recognised;
/// a crop must not be sheared at all.
pub proof fn lemma_placement_round_trip(placement: MediaPlacement, quarter: QuarterTurn)
    requires
        match placement {
            MediaPlacement::Fill { rotation } => rotation == quarter,
            MediaPlacement::Fit { rotation } => rotation == quarter,
            MediaPlacement::Tile { rotation, .. } => rotation == quarter,
            MediaPlacement::Crop { transform } => transform.m12 == Scalar::of(crate::scalar::ZERO)
                && transform.m21 == Scalar::of(crate::scalar::ZERO),
        },
    ensures
        crate::design_paints::placement_stored(placement, true) matches Some(stored)
            ==> placement_shown(stored.mode, stored.crop, stored.scale, quarter) == placement,
{
}

/// Two paints of a layer have one name only where they are one.
pub proof fn lemma_paint_ids_differ(
    node: Seq<char>,
    a_stroke: bool,
    a: usize,
    b_stroke: bool,
    b: usize,
)
    requires
        paint_id(node, a_stroke, a) == paint_id(node, b_stroke, b),
    ensures
        a_stroke == b_stroke,
        a == b,
{
    reveal_strlit("-fill-");
    reveal_strlit("-stroke-");
    let left = paint_id(node, a_stroke, a);
    let right = paint_id(node, b_stroke, b);
    let at = node.len() as int + 1;
    assert(left[at] == collection_prefix(a_stroke)[1]);
    assert(right[at] == collection_prefix(b_stroke)[1]);
    assert(a_stroke == b_stroke);
    let head = node + collection_prefix(a_stroke);
    assert(left.skip(head.len() as int) =~= crate::text::decimal(a as nat));
    assert(right.skip(head.len() as int) =~= crate::text::decimal(b as nat));
    crate::text::lemma_decimal_parses(a);
    crate::text::lemma_decimal_parses(b);
}

/// A paint that is neither a known fill nor a plain or gradient paint in its
/// snapshot is never offered for editing.
pub proof fn lemma_unknown_is_read_only(
    node: Seq<char>,
    is_stroke: bool,
    index: usize,
    snapshot: PaintSnapshot,
    turn: TurnFacts,
    paint: DesignPaint,
)
    requires
        paint_shown(node, is_stroke, index, snapshot, None, turn, paint),
        snapshot.kind is None,
    ensures
        paint.read_only,
        paint.payload is Unknown,
{
}

} // verus!
