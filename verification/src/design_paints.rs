//! Edits of a layer's paints: colors, opacity, blending, gradients, media,
//! patterns and shaders. Geometry and fractions of opacity come from the host.

use std::sync::Arc;

use vstd::prelude::*;

use crate::design_data::{renew, replace_data_operation, DataEdit, StyleEdit, TextEdit};
use crate::design_properties::blend_mode_operations;
use crate::design_shaders::{shader_fill_from_design, ShaderPayload};
use crate::design_values::design_blend_mode;
use crate::document::{CanvasNode, Doc, GroupNode, NodeData, Transform, VectorNode};
use crate::ids::{AssetId, NodeId};
use crate::operations::Operation;
use crate::paint::{
    BlendMode, Color, CropWindow, Fill, Gradient, GradientGeometry, GradientStop, ImageAdjust,
    ImageFitMode, PatternFill, Stroke, VideoFill,
};
use crate::sameness::Compared;
use crate::scalar::Scalar;

verus! {

// ---------------------------------------------------------------------------
// Slots
// ---------------------------------------------------------------------------

/// The paints of a layer's fill: of a group, its background comes first.
pub open spec fn fill_slots(data: NodeData) -> Seq<Fill> {
    match data {
        NodeData::Vector(vector) => vector.fills@,
        NodeData::Group(group) => match group.background {
            Some(fill) => seq![fill] + group.background_fills@,
            None => group.background_fills@,
        },
        _ => Seq::empty(),
    }
}

/// The paints of a layer's strokes.
pub open spec fn stroke_slots(data: NodeData) -> Seq<Stroke> {
    match data {
        NodeData::Vector(vector) => vector.strokes@,
        NodeData::Group(group) => group.strokes@,
        _ => Seq::empty(),
    }
}

/// The paint at a place.
pub open spec fn paint_at(data: NodeData, is_stroke: bool, index: int) -> Option<Fill> {
    if is_stroke {
        if index < stroke_slots(data).len() {
            Some(stroke_slots(data)[index].paint)
        } else {
            None
        }
    } else if index < fill_slots(data).len() {
        Some(fill_slots(data)[index])
    } else {
        None
    }
}

/// The paint of a layer at a place.
pub open spec fn layer_paint(doc: Doc, id: NodeId, is_stroke: bool, index: usize) -> Option<Fill> {
    match crate::scene::find(doc.nodes@, id) {
        Some(node) => paint_at(*node.data, is_stroke, index as int),
        None => None,
    }
}

pub fn paint_in(data: &NodeData, is_stroke: bool, index: usize) -> (paint: Option<&Fill>)
    ensures
        match paint_at(*data, is_stroke, index as int) {
            Some(wanted) => paint matches Some(paint) && *paint == wanted,
            None => paint is None,
        },
{
    match data {
        NodeData::Vector(vector) => {
            if is_stroke {
                if index < vector.strokes.len() {
                    Some(&vector.strokes[index].paint)
                } else {
                    None
                }
            } else if index < vector.fills.len() {
                Some(vector.fills.at(index))
            } else {
                None
            }
        },
        NodeData::Group(group) => {
            if is_stroke {
                if index < group.strokes.len() {
                    Some(&group.strokes[index].paint)
                } else {
                    None
                }
            } else {
                match &group.background {
                    Some(background) => if index == 0 {
                        Some(background)
                    } else if index - 1 < group.background_fills.len() {
                        Some(group.background_fills.at(index - 1))
                    } else {
                        None
                    },
                    None => if index < group.background_fills.len() {
                        Some(group.background_fills.at(index))
                    } else {
                        None
                    },
                }
            }
        },
        _ => None,
    }
}

pub fn current_paint(doc: &Doc, id: NodeId, is_stroke: bool, index: usize) -> (paint: Option<&Fill>)
    ensures
        match layer_paint(*doc, id, is_stroke, index) {
            Some(wanted) => paint matches Some(paint) && *paint == wanted,
            None => paint is None,
        },
{
    match doc.get(id) {
        Some(node) => paint_in(&node.data, is_stroke, index),
        None => None,
    }
}

/// The data with another paint at a place, and otherwise as it was.
pub open spec fn repainted(
    old: NodeData,
    is_stroke: bool,
    index: int,
    fill: Fill,
    new: NodeData,
) -> bool {
    match (old, new) {
        (NodeData::Vector(a), NodeData::Vector(b)) => if is_stroke {
            b == (VectorNode { strokes: b.strokes, ..a }) && b.strokes@ == a.strokes@.update(
                index,
                Stroke { paint: fill, ..a.strokes@[index] },
            )
        } else {
            b == (VectorNode { fills: b.fills, ..a }) && b.fills@ == a.fills@.update(index, fill)
        },
        (NodeData::Group(a), NodeData::Group(b)) => if is_stroke {
            b == (GroupNode { strokes: b.strokes, ..a }) && b.strokes@ == a.strokes@.update(
                index,
                Stroke { paint: fill, ..a.strokes@[index] },
            )
        } else {
            b == (GroupNode {
                background: b.background,
                background_fills: b.background_fills,
                ..a
            }) && b.background is Some == a.background is Some && fill_slots(new) == fill_slots(
                old,
            ).update(index, fill)
        },
        _ => false,
    }
}

fn repaint_strokes(strokes: &Vec<Stroke>, index: usize, fill: Fill) -> (r: Vec<Stroke>)
    requires
        index < strokes@.len(),
    ensures
        r@ == strokes@.update(
            index as int,
            Stroke { paint: fill, ..strokes@[index as int] },
        ),
{
    let mut r: Vec<Stroke> = Vec::new();
    let mut i: usize = 0;
    while i < strokes.len()
        invariant
            i <= strokes@.len(),
            r@ == strokes@.take(i as int),
        decreases strokes@.len() - i,
    {
        r.push(strokes[i].copy());
        assert(r@ =~= strokes@.take(i + 1));
        i = i + 1;
    }
    assert(r@ =~= strokes@);
    let changed = Stroke { paint: fill, ..strokes[index].copy() };
    r.set(index, changed);
    r
}

fn repaint(data: &NodeData, is_stroke: bool, index: usize, fill: Fill) -> (r: Option<NodeData>)
    ensures
        match r {
            Some(new) => paint_at(*data, is_stroke, index as int) is Some && repainted(
                *data,
                is_stroke,
                index as int,
                fill,
                new,
            ),
            None => paint_at(*data, is_stroke, index as int) is None,
        },
{
    match data {
        NodeData::Vector(vector) => {
            if is_stroke {
                if index < vector.strokes.len() {
                    Some(
                        NodeData::Vector(
                            VectorNode {
                                strokes: Arc::new(repaint_strokes(&vector.strokes, index, fill)),
                                ..vector.copy()
                            },
                        ),
                    )
                } else {
                    None
                }
            } else if index < vector.fills.len() {
                let mut fills = vector.fills.copy();
                fills.set(index, fill);
                Some(NodeData::Vector(VectorNode { fills, ..vector.copy() }))
            } else {
                None
            }
        },
        NodeData::Group(group) => {
            if is_stroke {
                if index < group.strokes.len() {
                    Some(
                        NodeData::Group(
                            GroupNode {
                                strokes: Arc::new(repaint_strokes(&group.strokes, index, fill)),
                                ..group.copy()
                            },
                        ),
                    )
                } else {
                    None
                }
            } else {
                repaint_background(group, index, fill)
            }
        },
        _ => None,
    }
}

fn repaint_background(group: &GroupNode, index: usize, fill: Fill) -> (r: Option<NodeData>)
    ensures
        match r {
            Some(new) => paint_at(NodeData::Group(*group), false, index as int) is Some
                && repainted(NodeData::Group(*group), false, index as int, fill, new),
            None => paint_at(NodeData::Group(*group), false, index as int) is None,
        },
{
    let ghost before = fill_slots(NodeData::Group(*group));
    match &group.background {
        Some(background) => {
            if index == 0 {
                let new = NodeData::Group(
                    GroupNode { background: Some(fill), ..group.copy() },
                );
                assert(fill_slots(new) =~= before.update(0, fill));
                Some(new)
            } else if index - 1 < group.background_fills.len() {
                let mut fills = group.background_fills.copy();
                fills.set(index - 1, fill);
                let new = NodeData::Group(GroupNode { background_fills: fills, ..group.copy() });
                assert(fill_slots(new) =~= before.update(index as int, fill));
                Some(new)
            } else {
                None
            }
        },
        None => {
            if index < group.background_fills.len() {
                let mut fills = group.background_fills.copy();
                fills.set(index, fill);
                Some(NodeData::Group(GroupNode { background_fills: fills, ..group.copy() }))
            } else {
                None
            }
        },
    }
}

/// The result lays a paint in the place of another; where there is none, or the
/// layer stays as it is, nothing happens.
pub open spec fn repaint_outcome(
    doc: Doc,
    id: NodeId,
    is_stroke: bool,
    index: usize,
    fill: Fill,
    operations: Seq<Operation>,
) -> bool {
    match crate::scene::find(doc.nodes@, id) {
        Some(node) => if paint_at(*node.data, is_stroke, index as int) is Some {
            exists|new: NodeData| #[trigger]
                repainted(*node.data, is_stroke, index as int, fill, new)
                    && crate::design_data::renews(operations, node, new)
        } else {
            operations.len() == 0
        },
        None => operations.len() == 0,
    }
}

/// Lays a paint in the place of another.
pub fn repaint_operations(
    doc: &Doc,
    id: NodeId,
    is_stroke: bool,
    index: usize,
    fill: Fill,
) -> (operations: Vec<Operation>)
    ensures
        repaint_outcome(*doc, id, is_stroke, index, fill, operations@),
{
    let ghost wanted = fill;
    if let Some(node) = doc.get(id) {
        if let Some(data) = repaint(&node.data, is_stroke, index, fill) {
            assert(repainted(*node.data, is_stroke, index as int, wanted, data));
            return renew(node, data);
        }
    }
    Vec::new()
}

// ---------------------------------------------------------------------------
// Gradients
// ---------------------------------------------------------------------------

/// Order of positions: that of the numbers, with the negative zero before zero
/// and NaNs at the ends.
pub open spec fn order_key(position: Scalar) -> int {
    if position.bits < crate::scalar::SIGN_BIT {
        position.bits as int
    } else {
        -(position.bits - crate::scalar::SIGN_BIT) - 1
    }
}

fn comes_after(a: Scalar, b: Scalar) -> (r: bool)
    ensures
        r == (order_key(a) > order_key(b)),
{
    if a.bits < crate::scalar::SIGN_BIT {
        b.bits >= crate::scalar::SIGN_BIT || a.bits > b.bits
    } else {
        b.bits >= crate::scalar::SIGN_BIT && a.bits < b.bits
    }
}

/// Puts a stop behind all stops that do not come after it.
pub open spec fn stop_inserted(stops: Seq<GradientStop>, stop: GradientStop) -> Seq<GradientStop>
    decreases stops.len(),
{
    if stops.len() == 0 || order_key(stops.last().position) <= order_key(stop.position) {
        stops.push(stop)
    } else {
        stop_inserted(stops.drop_last(), stop).push(stops.last())
    }
}

/// The stops in the order of their positions; equal positions keep their order.
pub open spec fn stops_sorted(stops: Seq<GradientStop>) -> Seq<GradientStop>
    decreases stops.len(),
{
    if stops.len() == 0 {
        Seq::empty()
    } else {
        stop_inserted(stops_sorted(stops.drop_last()), stops.last())
    }
}

proof fn lemma_inserted_at(stops: Seq<GradientStop>, stop: GradientStop, at: int)
    requires
        0 <= at <= stops.len(),
        at > 0 ==> order_key(stops[at - 1].position) <= order_key(stop.position),
        forall|k: int|
            at <= k < stops.len() ==> order_key((#[trigger] stops[k]).position) > order_key(
                stop.position,
            ),
    ensures
        stop_inserted(stops, stop) == stops.insert(at, stop),
    decreases stops.len(),
{
    if at == stops.len() {
        assert(stops.insert(at, stop) =~= stops.push(stop));
    } else {
        let front = stops.drop_last();
        assert(order_key(stops[stops.len() - 1].position) > order_key(stop.position));
        assert forall|k: int| at <= k < front.len() implies order_key(
            (#[trigger] front[k]).position,
        ) > order_key(stop.position) by {
            assert(front[k] == stops[k]);
        }
        lemma_inserted_at(front, stop, at);
        assert(front.insert(at, stop).push(stops.last()) =~= stops.insert(at, stop));
    }
}

fn sort_stops(stops: &Vec<GradientStop>) -> (sorted: Vec<GradientStop>)
    ensures
        sorted@ == stops_sorted(stops@),
{
    let mut sorted: Vec<GradientStop> = Vec::new();
    let mut i: usize = 0;
    assert(stops@.take(0) =~= Seq::<GradientStop>::empty());
    while i < stops.len()
        invariant
            i <= stops@.len(),
            sorted@ == stops_sorted(stops@.take(i as int)),
        decreases stops@.len() - i,
    {
        let stop = stops[i];
        let mut at: usize = sorted.len();
        while at > 0 && comes_after(sorted[at - 1].position, stop.position)
            invariant
                at <= sorted@.len(),
                forall|k: int|
                    at <= k < sorted@.len() ==> order_key((#[trigger] sorted@[k]).position)
                        > order_key(stop.position),
            decreases at,
        {
            at = at - 1;
        }
        proof {
            lemma_inserted_at(sorted@, stop, at as int);
            assert(stops@.take(i + 1).drop_last() =~= stops@.take(i as int));
            assert(stops@.take(i + 1).last() == stop);
        }
        sorted.insert(at, stop);
        i = i + 1;
    }
    assert(stops@.take(stops@.len() as int) =~= stops@);
    sorted
}

fn copy_stops(stops: &Vec<GradientStop>) -> (copy: Vec<GradientStop>)
    ensures
        copy@ == stops@,
{
    let mut copy: Vec<GradientStop> = Vec::new();
    let mut i: usize = 0;
    while i < stops.len()
        invariant
            i <= stops@.len(),
            copy@ == stops@.take(i as int),
        decreases stops@.len() - i,
    {
        copy.push(stops[i]);
        assert(copy@ =~= stops@.take(i + 1));
        i = i + 1;
    }
    assert(stops@.take(stops@.len() as int) =~= stops@);
    copy
}

/// A position between the ends of a gradient.
pub open spec fn on_gradient(position: Scalar) -> Scalar {
    position.clamped(Scalar::of(crate::scalar::ZERO), Scalar::of(crate::scalar::ONE))
}

fn clamp_position(position: Scalar) -> (r: Scalar)
    ensures
        r == on_gradient(position),
{
    position.clamp(Scalar::of(crate::scalar::ZERO), Scalar::of(crate::scalar::ONE))
}

/// What the host computes of a gradient's transform: whether all of it is
/// finite, where the gradient of the wanted kind runs, and the mirrored
/// positions where an angular gradient runs backwards.
#[derive(Debug, PartialEq)]
pub struct GradientFacts {
    pub finite: bool,
    pub geometry: Option<GradientGeometry>,
    pub mirrored: Option<Vec<Scalar>>,
}

/// All positions are finite.
pub open spec fn finite_positions(stops: Seq<GradientStop>) -> bool {
    forall|i: int| 0 <= i < stops.len() ==> (#[trigger] stops[i]).position.finite()
}

pub open spec fn clamped_stops(stops: Seq<GradientStop>) -> Seq<GradientStop> {
    stops.map_values(
        |stop: GradientStop|
            GradientStop { position: on_gradient(stop.position), color: stop.color },
    )
}

pub open spec fn moved_stops(stops: Seq<GradientStop>, positions: Seq<Scalar>) -> Seq<GradientStop> {
    Seq::new(
        stops.len(),
        |i: int| GradientStop { position: positions[i], color: stops[i].color },
    )
}

/// The gradient that a panel asks for: at least two stops, everything finite. An
/// angular gradient that runs backwards is kept running forwards.
pub open spec fn gradient_built(
    stops: Seq<GradientStop>,
    facts: GradientFacts,
    r: Option<Gradient>,
) -> bool {
    if !facts.finite || stops.len() < 2 || !finite_positions(stops) {
        r is None
    } else {
        match facts.geometry {
            None => r is None,
            Some(geometry) => r matches Some(gradient) && gradient.geometry == geometry
                && gradient.stops@ == (match facts.mirrored {
                Some(positions) => if geometry is Angular && positions@.len() == stops.len() {
                    stops_sorted(moved_stops(clamped_stops(stops), positions@))
                } else {
                    clamped_stops(stops)
                },
                None => clamped_stops(stops),
            }),
        }
    }
}

fn clamp_stops(stops: &Vec<GradientStop>) -> (r: Option<Vec<GradientStop>>)
    ensures
        match r {
            Some(clamped) => finite_positions(stops@) && clamped@ == clamped_stops(stops@),
            None => !finite_positions(stops@),
        },
{
    let mut clamped: Vec<GradientStop> = Vec::new();
    let mut i: usize = 0;
    while i < stops.len()
        invariant
            i <= stops@.len(),
            forall|k: int| 0 <= k < i ==> (#[trigger] stops@[k]).position.finite(),
            clamped@ == clamped_stops(stops@).take(i as int),
        decreases stops@.len() - i,
    {
        if !stops[i].position.is_finite() {
            assert(!stops@[i as int].position.finite());
            return None;
        }
        clamped.push(
            GradientStop { position: clamp_position(stops[i].position), color: stops[i].color },
        );
        assert(clamped@ =~= clamped_stops(stops@).take(i + 1));
        i = i + 1;
    }
    assert(clamped@ =~= clamped_stops(stops@));
    Some(clamped)
}

fn move_stops(stops: &Vec<GradientStop>, positions: &Vec<Scalar>) -> (r: Vec<GradientStop>)
    requires
        positions@.len() == stops@.len(),
    ensures
        r@ == moved_stops(stops@, positions@),
{
    let mut r: Vec<GradientStop> = Vec::new();
    let mut i: usize = 0;
    while i < stops.len()
        invariant
            i <= stops@.len(),
            positions@.len() == stops@.len(),
            r@ == moved_stops(stops@, positions@).take(i as int),
        decreases stops@.len() - i,
    {
        r.push(GradientStop { position: positions[i], color: stops[i].color });
        assert(r@ =~= moved_stops(stops@, positions@).take(i + 1));
        i = i + 1;
    }
    assert(r@ =~= moved_stops(stops@, positions@));
    r
}

pub fn gradient_from_design(stops: &Vec<GradientStop>, facts: &GradientFacts) -> (r: Option<
    Gradient,
>)
    ensures
        gradient_built(stops@, *facts, r),
{
    if !facts.finite || stops.len() < 2 {
        return None;
    }
    let clamped = match clamp_stops(stops) {
        Some(clamped) => clamped,
        None => {
            return None;
        },
    };
    let geometry = match facts.geometry {
        Some(geometry) => geometry,
        None => {
            return None;
        },
    };
    let angular = match geometry {
        GradientGeometry::Angular { .. } => true,
        _ => false,
    };
    let ordered = match &facts.mirrored {
        Some(positions) => if angular && positions.len() == clamped.len() {
            let moved = move_stops(&clamped, positions);
            sort_stops(&moved)
        } else {
            clamped
        },
        None => clamped,
    };
    Some(Gradient { geometry, stops: Arc::new(ordered) })
}

// ---------------------------------------------------------------------------
// Media
// ---------------------------------------------------------------------------

#[derive(Clone, Copy, Debug, PartialEq, Eq, Structural)]
pub enum QuarterTurn {
    Upright,
    Clockwise90,
    Clockwise180,
    Clockwise270,
}

/// How a picture or a video lies in its layer.
#[derive(Clone, Copy, Debug, PartialEq, Eq, Structural)]
pub enum MediaPlacement {
    Fill { rotation: QuarterTurn },
    Fit { rotation: QuarterTurn },
    Crop { transform: Transform },
    Tile { scaling_factor: Scalar, rotation: QuarterTurn },
}

/// How the document keeps a placement.
#[derive(Clone, Copy, Debug, PartialEq, Eq, Structural)]
pub struct StoredPlacement {
    pub mode: ImageFitMode,
    pub crop: Option<CropWindow>,
    pub scale: Option<Scalar>,
    pub rotation: Option<Scalar>,
}

pub open spec fn turn_degrees(turn: QuarterTurn) -> Scalar {
    Scalar::of(
        match turn {
            QuarterTurn::Upright => crate::scalar::ZERO,
            QuarterTurn::Clockwise90 => crate::scalar::NINETY,
            QuarterTurn::Clockwise180 => crate::scalar::HALF_TURN,
            QuarterTurn::Clockwise270 => crate::scalar::THREE_QUARTER_TURN,
        },
    )
}

fn degrees_of(turn: QuarterTurn) -> (degrees: Scalar)
    ensures
        degrees == turn_degrees(turn),
{
    Scalar::of(
        match turn {
            QuarterTurn::Upright => crate::scalar::ZERO,
            QuarterTurn::Clockwise90 => crate::scalar::NINETY,
            QuarterTurn::Clockwise180 => crate::scalar::HALF_TURN,
            QuarterTurn::Clockwise270 => crate::scalar::THREE_QUARTER_TURN,
        },
    )
}

/// A window that is neither turned nor mirrored, up to a millionth.
pub open spec fn upright_window(transform: Transform) -> bool {
    let small = Scalar::of(crate::scalar::MILLIONTH);
    let zero = Scalar::of(crate::scalar::ZERO);
    &&& !small.lt(transform.m12.absolute())
    &&& !small.lt(transform.m21.absolute())
    &&& !transform.m11.le(zero)
    &&& !transform.m22.le(zero)
}

/// How a placement is kept, where the panel holds it for valid: a crop must be
/// upright.
pub open spec fn placement_stored(placement: MediaPlacement, valid: bool) -> Option<
    StoredPlacement,
> {
    if !valid {
        None
    } else {
        match placement {
            MediaPlacement::Fill { rotation } => Some(
                StoredPlacement {
                    mode: ImageFitMode::Fill,
                    crop: None,
                    scale: None,
                    rotation: Some(turn_degrees(rotation)),
                },
            ),
            MediaPlacement::Fit { rotation } => Some(
                StoredPlacement {
                    mode: ImageFitMode::Fit,
                    crop: None,
                    scale: None,
                    rotation: Some(turn_degrees(rotation)),
                },
            ),
            MediaPlacement::Crop { transform } => if upright_window(transform) {
                Some(
                    StoredPlacement {
                        mode: ImageFitMode::Fill,
                        crop: Some(
                            CropWindow {
                                x: transform.tx,
                                y: transform.ty,
                                width: transform.m11,
                                height: transform.m22,
                            },
                        ),
                        scale: None,
                        rotation: None,
                    },
                )
            } else {
                None
            },
            MediaPlacement::Tile { scaling_factor, rotation } => Some(
                StoredPlacement {
                    mode: ImageFitMode::Tile,
                    crop: None,
                    scale: Some(scaling_factor),
                    rotation: Some(turn_degrees(rotation)),
                },
            ),
        }
    }
}

pub fn engine_media_placement(placement: MediaPlacement, valid: bool) -> (r: Option<
    StoredPlacement,
>)
    ensures
        r == placement_stored(placement, valid),
{
    if !valid {
        return None;
    }
    match placement {
        MediaPlacement::Fill { rotation } => Some(
            StoredPlacement {
                mode: ImageFitMode::Fill,
                crop: None,
                scale: None,
                rotation: Some(degrees_of(rotation)),
            },
        ),
        MediaPlacement::Fit { rotation } => Some(
            StoredPlacement {
                mode: ImageFitMode::Fit,
                crop: None,
                scale: None,
                rotation: Some(degrees_of(rotation)),
            },
        ),
        MediaPlacement::Crop { transform } => {
            let small = Scalar::of(crate::scalar::MILLIONTH);
            let zero = Scalar::of(crate::scalar::ZERO);
            if small.less(transform.m12.abs()) || small.less(transform.m21.abs())
                || transform.m11.at_most(zero) || transform.m22.at_most(zero) {
                return None;
            }
            Some(
                StoredPlacement {
                    mode: ImageFitMode::Fill,
                    crop: Some(
                        CropWindow {
                            x: transform.tx,
                            y: transform.ty,
                            width: transform.m11,
                            height: transform.m22,
                        },
                    ),
                    scale: None,
                    rotation: None,
                },
            )
        },
        MediaPlacement::Tile { scaling_factor, rotation } => Some(
            StoredPlacement {
                mode: ImageFitMode::Tile,
                crop: None,
                scale: Some(scaling_factor),
                rotation: Some(degrees_of(rotation)),
            },
        ),
    }
}

/// A picture or a video as the panel asks for it. `asset` is what the source's
/// name stands for, `filters` what the panel makes of its filters, and `valid`
/// whether it holds the placement for valid.
#[derive(Clone, Copy, Debug, PartialEq, Eq, Structural)]
pub struct MediaPayload {
    pub asset: Option<AssetId>,
    pub placement: MediaPlacement,
    pub valid: bool,
    pub filters: Option<ImageAdjust>,
}

pub open spec fn image_built(payload: MediaPayload, opacity: Scalar, blend: BlendMode) -> Option<
    Fill,
> {
    match (
        payload.asset,
        placement_stored(payload.placement, payload.valid),
        payload.filters,
    ) {
        (Some(asset), Some(stored), Some(adjust)) => Some(
            Fill::Image {
                asset: asset,
                mode: stored.mode,
                opacity: opacity,
                crop: stored.crop,
                scale: stored.scale,
                rotation: stored.rotation,
                blend: blend,
                adjust: adjust,
            },
        ),
        _ => None,
    }
}

fn image_fill_from_design(payload: &MediaPayload, opacity: Scalar, blend: BlendMode) -> (r: Option<
    Fill,
>)
    ensures
        r == image_built(*payload, opacity, blend),
{
    match (
        payload.asset,
        engine_media_placement(payload.placement, payload.valid),
        payload.filters,
    ) {
        (Some(asset), Some(stored), Some(adjust)) => Some(
            Fill::Image {
                asset,
                mode: stored.mode,
                opacity,
                crop: stored.crop,
                scale: stored.scale,
                rotation: stored.rotation,
                blend,
                adjust,
            },
        ),
        _ => None,
    }
}

/// The poster stays with the video it was taken from.
pub open spec fn video_built(
    payload: MediaPayload,
    previous: Option<VideoFill>,
    opacity: Scalar,
    blend: BlendMode,
) -> Option<Fill> {
    match (
        payload.asset,
        placement_stored(payload.placement, payload.valid),
        payload.filters,
    ) {
        (Some(asset), Some(stored), Some(adjust)) => Some(
            Fill::Video {
                video: VideoFill {
                    asset: asset,
                    poster: match previous {
                        Some(before) => if before.asset == asset {
                            before.poster
                        } else {
                            None
                        },
                        None => None,
                    },
                    mode: stored.mode,
                    crop: stored.crop,
                    scale: stored.scale,
                    rotation: stored.rotation,
                    adjust: adjust,
                },
                opacity: opacity,
                blend: blend,
            },
        ),
        _ => None,
    }
}

fn video_fill_from_design(
    payload: &MediaPayload,
    previous: Option<VideoFill>,
    opacity: Scalar,
    blend: BlendMode,
) -> (r: Option<Fill>)
    ensures
        r == video_built(*payload, previous, opacity, blend),
{
    match (
        payload.asset,
        engine_media_placement(payload.placement, payload.valid),
        payload.filters,
    ) {
        (Some(asset), Some(stored), Some(adjust)) => {
            let poster = match previous {
                Some(before) => if before.asset == asset {
                    before.poster
                } else {
                    None
                },
                None => None,
            };
            Some(
                Fill::Video {
                    video: VideoFill {
                        asset,
                        poster,
                        mode: stored.mode,
                        crop: stored.crop,
                        scale: stored.scale,
                        rotation: stored.rotation,
                        adjust,
                    },
                    opacity,
                    blend,
                },
            )
        },
        _ => None,
    }
}

// ---------------------------------------------------------------------------
// Patterns
// ---------------------------------------------------------------------------

/// A layer can be the source of a pattern on another: it draws something, and
/// the other is neither itself nor below it.
pub open spec fn sources_pattern(doc: Doc, target: NodeId, source: NodeId) -> bool {
    &&& source != target
    &&& crate::scene::find(doc.nodes@, source) matches Some(node) && (*node.data is Vector
        || *node.data is Group)
    &&& !crate::scene::is_above(doc.nodes@, source, target)
}

pub fn pattern_source_is_valid(doc: &Doc, target: NodeId, source: NodeId) -> (r: bool)
    ensures
        r == sources_pattern(*doc, target, source),
{
    let draws = match doc.get(source) {
        Some(node) => match &*node.data {
            NodeData::Vector(_) => true,
            NodeData::Group(_) => true,
            _ => false,
        },
        None => false,
    };
    source != target && draws && !doc.is_ancestor(source, target)
}

/// A pattern never paints a layer with itself or with something it is part of.
pub proof fn lemma_pattern_never_contains_itself(doc: Doc, target: NodeId, source: NodeId)
    requires
        sources_pattern(doc, target, source),
    ensures
        source != target,
        !crate::scene::is_above(doc.nodes@, source, target),
{
}

#[derive(Debug, PartialEq)]
pub struct PatternCandidate {
    pub node: NodeId,
    pub name: String,
}

/// The topmost layer above a layer, or the layer itself.
pub open spec fn top_above(nodes: Seq<CanvasNode>, id: NodeId) -> NodeId {
    let above = crate::scene::ancestors(nodes, id);
    if above.len() == 0 {
        id
    } else {
        above.last().id
    }
}

/// The layers of a list that can be the source.
pub open spec fn candidates_among(doc: Doc, target: NodeId, ids: Seq<NodeId>) -> Seq<(
    NodeId,
    Seq<char>,
)>
    decreases ids.len(),
{
    if ids.len() == 0 {
        Seq::empty()
    } else {
        let rest = candidates_among(doc, target, ids.drop_last());
        if sources_pattern(doc, target, ids.last()) {
            rest.push((ids.last(), crate::scene::find(doc.nodes@, ids.last())->0.name@))
        } else {
            rest
        }
    }
}

pub open spec fn shown_candidates(list: Seq<PatternCandidate>) -> Seq<(NodeId, Seq<char>)> {
    list.map_values(|candidate: PatternCandidate| (candidate.node, candidate.name@))
}

/// The layers of the same page that can be the source of a pattern, in paint
/// order.
pub fn pattern_source_candidates(doc: &Doc, target: NodeId) -> (list: Vec<PatternCandidate>)
    ensures
        shown_candidates(list@) == candidates_among(
            *doc,
            target,
            crate::scene::descendants(doc.nodes@, top_above(doc.nodes@, target)),
        ),
{
    let above = doc.ancestors_of(target);
    let ghost layers = crate::scene::ancestors(doc.nodes@, target);
    let top = if above.len() == 0 {
        target
    } else {
        above[above.len() - 1]
    };
    assert(top == top_above(doc.nodes@, target));
    let ids = doc.descendants_of(top);
    let mut list: Vec<PatternCandidate> = Vec::new();
    let mut i: usize = 0;
    assert(ids@.take(0) =~= Seq::<NodeId>::empty());
    assert(shown_candidates(list@) =~= Seq::<(NodeId, Seq<char>)>::empty());
    while i < ids.len()
        invariant
            i <= ids@.len(),
            shown_candidates(list@) == candidates_among(*doc, target, ids@.take(i as int)),
        decreases ids@.len() - i,
    {
        let id = ids[i];
        let ghost before = shown_candidates(list@);
        proof {
            assert(ids@.take(i + 1).drop_last() =~= ids@.take(i as int));
            assert(ids@.take(i + 1).last() == id);
        }
        if pattern_source_is_valid(doc, target, id) {
            if let Some(node) = doc.get(id) {
                list.push(PatternCandidate { node: id, name: node.name.clone() });
                assert(shown_candidates(list@) =~= before.push((id, node.name@)));
            }
        }
        i = i + 1;
    }
    assert(ids@.take(ids@.len() as int) =~= ids@);
    list
}

/// The pattern that a panel asks for, with a source that may be one and a
/// positive scale.
pub open spec fn pattern_built(doc: Doc, target: NodeId, payload: PatternPayload) -> Option<
    PatternFill,
> {
    match payload.source {
        Some(pattern) => if sources_pattern(doc, target, pattern.source_node_id)
            && pattern.scaling_factor.finite() && !pattern.scaling_factor.le(
            Scalar::of(crate::scalar::ZERO),
        ) && pattern.spacing.x.finite() && pattern.spacing.y.finite() {
            Some(pattern)
        } else {
            None
        },
        None => None,
    }
}

/// A pattern as the panel asks for it; none where the name of its source stands
/// for no layer.
#[derive(Clone, Copy, Debug, PartialEq, Eq, Structural)]
pub struct PatternPayload {
    pub source: Option<PatternFill>,
}

fn pattern_fill_from_design(doc: &Doc, target: NodeId, payload: &PatternPayload) -> (r: Option<
    PatternFill,
>)
    ensures
        r == pattern_built(*doc, target, *payload),
{
    match payload.source {
        Some(pattern) => if pattern_source_is_valid(doc, target, pattern.source_node_id)
            && pattern.scaling_factor.is_finite() && !pattern.scaling_factor.at_most(
            Scalar::of(crate::scalar::ZERO),
        ) && pattern.spacing.x.is_finite() && pattern.spacing.y.is_finite() {
            Some(pattern)
        } else {
            None
        },
        None => None,
    }
}

// ---------------------------------------------------------------------------
// Edits
// ---------------------------------------------------------------------------

/// What a panel puts in the place of a paint.
#[derive(Debug, PartialEq)]
pub enum PaintPayload {
    Solid(Color),
    Gradient { stops: Vec<GradientStop>, facts: GradientFacts },
    Pattern(PatternPayload),
    Image(MediaPayload),
    Video(MediaPayload),
    Shader(ShaderPayload),
}

#[derive(Debug, PartialEq)]
pub enum PaintEditValue {
    Color(Color),
    /// Opacity in percent; `alpha` is what that makes of an opaque alpha, and
    /// `scaled` of the alpha of every stop of a gradient.
    Opacity { percent: Scalar, alpha: u8, scaled: Vec<u8> },
    BlendMode(BlendMode),
    Payload(PaintPayload),
    /// The payload that an edit in the panel has led to, where it took it.
    ModelEdit(Option<PaintPayload>),
    /// Another kind or another run of the gradient.
    GradientRun(GradientFacts),
    GradientStopColor(usize, Color),
    GradientStopPosition(usize, Scalar),
    GradientStopAdd(Scalar, Color),
    GradientStopRemove(usize),
}

/// What an edit of a paint asks for.
#[derive(Debug, PartialEq)]
pub enum PaintOutcome {
    Operations(Vec<Operation>),
    /// The opacity of a paint, written through its field.
    OpacityField { percent: Scalar },
}

/// The opacity that a paint keeps when it becomes a picture or a pattern.
pub open spec fn plain_opacity(fill: Fill) -> Scalar {
    match fill {
        Fill::Image { opacity, .. } => opacity,
        Fill::Pattern { opacity, .. } => opacity,
        Fill::Video { opacity, .. } => opacity,
        Fill::Shader { opacity, .. } => opacity,
        _ => Scalar::of(crate::scalar::ONE),
    }
}

fn opacity_kept(fill: &Fill) -> (r: Scalar)
    ensures
        r == plain_opacity(*fill),
{
    match fill {
        Fill::Image { opacity, .. } => *opacity,
        Fill::Pattern { opacity, .. } => *opacity,
        Fill::Video { opacity, .. } => *opacity,
        Fill::Shader { opacity, .. } => *opacity,
        _ => Scalar::of(crate::scalar::ONE),
    }
}

/// The opacity of a paint as a fraction; of a color or a gradient, `fraction`.
pub open spec fn opacity_fraction(fill: Option<Fill>, fraction: Scalar) -> Scalar {
    match fill {
        Some(Fill::Solid { .. }) => fraction,
        Some(Fill::Gradient { .. }) => fraction,
        Some(fill) => plain_opacity(fill),
        None => Scalar::of(crate::scalar::ONE),
    }
}

pub fn paint_opacity_fraction(fill: Option<&Fill>, fraction: Scalar) -> (r: Scalar)
    ensures
        r == opacity_fraction(
            (match fill {
                Some(fill) => Some(*fill),
                None => None,
            }),
            fraction,
        ),
{
    match fill {
        Some(Fill::Solid { .. }) => fraction,
        Some(Fill::Gradient { .. }) => fraction,
        Some(fill) => opacity_kept(fill),
        None => Scalar::of(crate::scalar::ONE),
    }
}

/// The layer is a text, whose one fill is the color of its glyphs.
pub open spec fn paints_glyphs(doc: Doc, id: NodeId, is_stroke: bool) -> bool {
    !is_stroke && (crate::scene::find(doc.nodes@, id) matches Some(node) && *node.data is Text)
}

/// The layer is a text.
pub open spec fn is_text(doc: Doc, id: NodeId) -> bool {
    crate::scene::find(doc.nodes@, id) matches Some(node) && *node.data is Text
}

/// The gradient of a paint.
pub open spec fn gradient_at(doc: Doc, id: NodeId, is_stroke: bool, index: usize) -> Option<
    Gradient,
> {
    match layer_paint(doc, id, is_stroke, index) {
        Some(Fill::Gradient { gradient, .. }) => Some(gradient),
        _ => None,
    }
}

/// The alpha of a stop once the strongest stop has a new one: a stop as strong as
/// that gets it too, a clear stop stays clear, and all stops get it where all are
/// clear. Any other stop keeps its share, which is `scaled`.
pub open spec fn alpha_scaled(old: u8, strongest: u8, alpha: u8, scaled: u8) -> u8 {
    if old == strongest {
        alpha
    } else if old == 0 {
        0
    } else {
        scaled
    }
}

fn scale_alpha(old: u8, strongest: u8, alpha: u8, scaled: u8) -> (r: u8)
    ensures
        r == alpha_scaled(old, strongest, alpha, scaled),
{
    if old == strongest {
        alpha
    } else if old == 0 {
        0
    } else {
        scaled
    }
}

/// The stops of a gradient after an edit; none where the edit is refused.
pub open spec fn stops_edited(stops: Seq<GradientStop>, value: PaintEditValue) -> Option<
    Seq<GradientStop>,
> {
    match value {
        PaintEditValue::Opacity { alpha, scaled, .. } => if scaled@.len() == stops.len() {
            Some(
                Seq::new(
                    stops.len(),
                    |i: int|
                        GradientStop {
                            position: stops[i].position,
                            color: Color {
                                a: alpha_scaled(
                                    stops[i].color.a,
                                    crate::design_paint_view::strongest(stops),
                                    alpha,
                                    scaled@[i],
                                ),
                                ..stops[i].color
                            },
                        },
                ),
            )
        } else {
            None
        },
        PaintEditValue::GradientStopColor(index, color) => if index < stops.len() {
            Some(
                stops.update(
                    index as int,
                    GradientStop { position: stops[index as int].position, color: color },
                ),
            )
        } else {
            None
        },
        PaintEditValue::GradientStopPosition(index, position) => if index < stops.len() {
            Some(
                stops_sorted(
                    stops.update(
                        index as int,
                        GradientStop {
                            position: on_gradient(position),
                            color: stops[index as int].color,
                        },
                    ),
                ),
            )
        } else {
            None
        },
        PaintEditValue::GradientStopAdd(position, color) => if position.finite() {
            Some(
                stops_sorted(
                    stops.push(GradientStop { position: on_gradient(position), color: color }),
                ),
            )
        } else {
            None
        },
        PaintEditValue::GradientStopRemove(index) => if stops.len() > 2 && index < stops.len() {
            Some(stops.remove(index as int))
        } else {
            None
        },
        _ => None,
    }
}

fn edit_stops(stops: &Vec<GradientStop>, value: &PaintEditValue) -> (r: Option<Vec<GradientStop>>)
    ensures
        match stops_edited(stops@, *value) {
            Some(wanted) => r matches Some(edited) && edited@ == wanted,
            None => r is None,
        },
{
    match value {
        PaintEditValue::Opacity { alpha, scaled, .. } => {
            if scaled.len() != stops.len() {
                return None;
            }
            let strongest: u8 = crate::design_paint_view::strongest_alpha(stops);
            let ghost wanted = stops_edited(stops@, *value)->0;
            let mut edited: Vec<GradientStop> = Vec::new();
            let mut i: usize = 0;
            while i < stops.len()
                invariant
                    i <= stops@.len(),
                    scaled@.len() == stops@.len(),
                    wanted == stops_edited(stops@, *value)->0,
                    wanted.len() == stops@.len(),
                    strongest == crate::design_paint_view::strongest(stops@),
                    forall|k: int|
                        0 <= k < stops@.len() ==> #[trigger] wanted[k] == (GradientStop {
                            position: stops@[k].position,
                            color: (Color {
                                a: alpha_scaled(
                                    stops@[k].color.a,
                                    strongest,
                                    *alpha,
                                    scaled@[k],
                                ),
                                ..stops@[k].color
                            }),
                        }),
                    edited@ == wanted.take(i as int),
                decreases stops@.len() - i,
            {
                edited.push(
                    GradientStop {
                        position: stops[i].position,
                        color: Color {
                            a: scale_alpha(stops[i].color.a, strongest, *alpha, scaled[i]),
                            ..stops[i].color
                        },
                    },
                );
                assert(edited@ =~= wanted.take(i + 1));
                i = i + 1;
            }
            assert(edited@ =~= wanted);
            Some(edited)
        },
        PaintEditValue::GradientStopColor(index, color) => {
            if *index >= stops.len() {
                return None;
            }
            let mut edited = copy_stops(stops);
            edited.set(
                *index,
                GradientStop { position: stops[*index].position, color: *color },
            );
            Some(edited)
        },
        PaintEditValue::GradientStopPosition(index, position) => {
            if *index >= stops.len() {
                return None;
            }
            let mut edited = copy_stops(stops);
            edited.set(
                *index,
                GradientStop { position: clamp_position(*position), color: stops[*index].color },
            );
            Some(sort_stops(&edited))
        },
        PaintEditValue::GradientStopAdd(position, color) => {
            if !position.is_finite() {
                return None;
            }
            let mut edited = copy_stops(stops);
            edited.push(GradientStop { position: clamp_position(*position), color: *color });
            Some(sort_stops(&edited))
        },
        PaintEditValue::GradientStopRemove(index) => {
            if stops.len() <= 2 || *index >= stops.len() {
                return None;
            }
            let mut edited = copy_stops(stops);
            let _removed = edited.remove(*index);
            Some(edited)
        },
        _ => None,
    }
}

/// A fill that lays the gradient down as the paint before was laid down.
pub open spec fn lays_gradient(
    fill: Fill,
    before: Fill,
    geometry: GradientGeometry,
    stops: Seq<GradientStop>,
) -> bool {
    fill matches Fill::Gradient { gradient, blend } && blend == before.blend_of()
        && gradient.geometry == geometry && gradient.stops@ == stops
}

/// The shader of a paint.
pub open spec fn shader_of(fill: Fill) -> Option<crate::paint::ShaderFill> {
    match fill {
        Fill::Shader { shader, .. } => Some(shader),
        _ => None,
    }
}

/// The new fill for a payload, where there is one.
pub open spec fn payload_fill(
    doc: Doc,
    id: NodeId,
    before: Fill,
    payload: PaintPayload,
    fraction: Scalar,
    fill: Option<Fill>,
) -> bool {
    let blend = before.blend_of();
    match payload {
        PaintPayload::Solid(color) => fill == Some(Fill::Solid { color: color, blend: blend }),
        PaintPayload::Gradient { stops, facts } => exists|gradient: Option<Gradient>| #[trigger]
            gradient_built(stops@, facts, gradient) && fill == (match gradient {
                Some(gradient) => Some(Fill::Gradient { gradient: gradient, blend: blend }),
                None => None,
            }),
        PaintPayload::Pattern(pattern) => fill == (match pattern_built(doc, id, pattern) {
            Some(pattern) => Some(
                Fill::Pattern { pattern: pattern, opacity: plain_opacity(before), blend: blend },
            ),
            None => None,
        }),
        PaintPayload::Image(image) => fill == image_built(image, plain_opacity(before), blend),
        PaintPayload::Video(video) => fill == video_built(
            video,
            (match before {
                Fill::Video { video, .. } => Some(video),
                _ => None,
            }),
            opacity_fraction(Some(before), fraction),
            blend,
        ),
        PaintPayload::Shader(shader) => exists|built: Option<
            crate::paint::ShaderFill,
        >| #[trigger]
            crate::design_shaders::shader_built(
                shader,
                shader_of(before),
                built,
            ) && fill == (match built {
                Some(shader) => Some(
                    Fill::Shader {
                        shader: shader,
                        opacity: opacity_fraction(Some(before), fraction),
                        blend: blend,
                    },
                ),
                None => None,
            }),
    }
}

fn fill_for_payload(
    doc: &Doc,
    id: NodeId,
    before: &Fill,
    payload: &PaintPayload,
    fraction: Scalar,
) -> (fill: Option<Fill>)
    ensures
        payload_fill(*doc, id, *before, *payload, fraction, fill),
{
    let blend = before.paint_blend();
    match payload {
        PaintPayload::Solid(color) => Some(Fill::Solid { color: *color, blend }),
        PaintPayload::Gradient { stops, facts } => {
            let gradient = gradient_from_design(stops, facts);
            assert(gradient_built(stops@, *facts, gradient));
            match gradient {
                Some(gradient) => Some(Fill::Gradient { gradient, blend }),
                None => None,
            }
        },
        PaintPayload::Pattern(pattern) => match pattern_fill_from_design(doc, id, pattern) {
            Some(pattern) => Some(
                Fill::Pattern { pattern, opacity: opacity_kept(before), blend },
            ),
            None => None,
        },
        PaintPayload::Image(image) => image_fill_from_design(image, opacity_kept(before), blend),
        PaintPayload::Video(video) => {
            let previous = match before {
                Fill::Video { video, .. } => Some(*video),
                _ => None,
            };
            video_fill_from_design(
                video,
                previous,
                paint_opacity_fraction(Some(before), fraction),
                blend,
            )
        },
        PaintPayload::Shader(shader) => {
            let previous = match before {
                Fill::Shader { shader, .. } => Some(shader),
                _ => None,
            };
            let built = shader_fill_from_design(shader, previous);
            assert(crate::design_shaders::shader_built(
                *shader,
                shader_of(*before),
                built,
            ));
            match built {
                Some(shader) => Some(
                    Fill::Shader {
                        shader,
                        opacity: paint_opacity_fraction(Some(before), fraction),
                        blend,
                    },
                ),
                None => None,
            }
        },
    }
}

/// What a payload does to a layer. A text takes a plain color only.
pub open spec fn payload_outcome(
    doc: Doc,
    id: NodeId,
    is_stroke: bool,
    index: usize,
    payload: PaintPayload,
    fraction: Scalar,
    operations: Seq<Operation>,
) -> bool {
    if payload is Solid && paints_glyphs(doc, id, is_stroke) {
        crate::design_data::edits_data(
            operations,
            doc,
            id,
            DataEdit::Text(TextEdit::Style(StyleEdit::Color(payload->Solid_0))),
        )
    } else if !(payload is Solid) && is_text(doc, id) {
        operations.len() == 0
    } else {
        match layer_paint(doc, id, is_stroke, index) {
            None => operations.len() == 0,
            Some(before) => exists|fill: Option<Fill>| #[trigger]
                payload_fill(doc, id, before, payload, fraction, fill) && (match fill {
                    Some(fill) => repaint_outcome(doc, id, is_stroke, index, fill, operations),
                    None => operations.len() == 0,
                }),
        }
    }
}

fn payload_operations(
    doc: &Doc,
    id: NodeId,
    is_stroke: bool,
    index: usize,
    payload: &PaintPayload,
    fraction: Scalar,
) -> (operations: Vec<Operation>)
    ensures
        payload_outcome(*doc, id, is_stroke, index, *payload, fraction, operations@),
{
    let text = is_text_layer(doc, id);
    match payload {
        PaintPayload::Solid(color) => {
            if text && !is_stroke {
                return replace_data_operation(
                    doc,
                    id,
                    &DataEdit::Text(TextEdit::Style(StyleEdit::Color(*color))),
                );
            }
        },
        _ => {
            if text {
                return Vec::new();
            }
        },
    }
    match current_paint(doc, id, is_stroke, index) {
        None => Vec::new(),
        Some(before) => {
            let fill = fill_for_payload(doc, id, before, payload, fraction);
            assert(payload_fill(*doc, id, *before, *payload, fraction, fill));
            match fill {
                Some(fill) => repaint_operations(doc, id, is_stroke, index, fill),
                None => Vec::new(),
            }
        },
    }
}

pub fn is_text_layer(doc: &Doc, id: NodeId) -> (r: bool)
    ensures
        r == is_text(*doc, id),
{
    match doc.get(id) {
        Some(node) => match &*node.data {
            NodeData::Text(_) => true,
            _ => false,
        },
        None => false,
    }
}

/// A paint of a gradient with other stops.
pub open spec fn stops_outcome(
    doc: Doc,
    id: NodeId,
    is_stroke: bool,
    index: usize,
    value: PaintEditValue,
    operations: Seq<Operation>,
) -> bool {
    match layer_paint(doc, id, is_stroke, index) {
        Some(Fill::Gradient { gradient, blend }) => match stops_edited(gradient.stops@, value) {
            Some(stops) => exists|fill: Fill| #[trigger]
                lays_gradient(
                    fill,
                    Fill::Gradient { gradient: gradient, blend: blend },
                    gradient.geometry,
                    stops,
                ) && repaint_outcome(doc, id, is_stroke, index, fill, operations),
            None => operations.len() == 0,
        },
        _ => operations.len() == 0,
    }
}

fn stops_operations(
    doc: &Doc,
    id: NodeId,
    is_stroke: bool,
    index: usize,
    value: &PaintEditValue,
) -> (operations: Vec<Operation>)
    ensures
        stops_outcome(*doc, id, is_stroke, index, *value, operations@),
{
    match current_paint(doc, id, is_stroke, index) {
        Some(Fill::Gradient { gradient, blend }) => {
            let ghost before = Fill::Gradient { gradient: *gradient, blend: *blend };
            match edit_stops(&gradient.stops, value) {
                Some(stops) => {
                    let ghost wanted = stops@;
                    let fill = Fill::Gradient {
                        gradient: Gradient {
                            geometry: gradient.geometry,
                            stops: Arc::new(stops),
                        },
                        blend: *blend,
                    };
                    assert(lays_gradient(fill, before, gradient.geometry, wanted));
                    repaint_operations(doc, id, is_stroke, index, fill)
                },
                None => Vec::new(),
            }
        },
        _ => Vec::new(),
    }
}

/// A gradient with the same stops that runs otherwise.
pub open spec fn run_outcome(
    doc: Doc,
    id: NodeId,
    is_stroke: bool,
    index: usize,
    facts: GradientFacts,
    operations: Seq<Operation>,
) -> bool {
    match layer_paint(doc, id, is_stroke, index) {
        Some(Fill::Gradient { gradient, blend }) => exists|built: Option<Gradient>| #[trigger]
            gradient_built(gradient.stops@, facts, built) && (match built {
                Some(run) => repaint_outcome(
                    doc,
                    id,
                    is_stroke,
                    index,
                    Fill::Gradient { gradient: run, blend: blend },
                    operations,
                ),
                None => operations.len() == 0,
            }),
        _ => operations.len() == 0,
    }
}

fn run_operations(
    doc: &Doc,
    id: NodeId,
    is_stroke: bool,
    index: usize,
    facts: &GradientFacts,
) -> (operations: Vec<Operation>)
    ensures
        run_outcome(*doc, id, is_stroke, index, *facts, operations@),
{
    match current_paint(doc, id, is_stroke, index) {
        Some(Fill::Gradient { gradient, blend }) => {
            let built = gradient_from_design(&gradient.stops, facts);
            assert(gradient_built(gradient.stops@, *facts, built));
            match built {
                Some(run) => repaint_operations(
                    doc,
                    id,
                    is_stroke,
                    index,
                    Fill::Gradient { gradient: run, blend: *blend },
                ),
                None => Vec::new(),
            }
        },
        _ => Vec::new(),
    }
}

/// What an edit of a paint does. `fraction` is the opacity of the paint before
/// where that is a color or a gradient.
pub open spec fn paint_edit_outcome(
    doc: Doc,
    id: NodeId,
    is_stroke: bool,
    index: usize,
    value: PaintEditValue,
    fraction: Scalar,
    r: PaintOutcome,
) -> bool {
    let operations = match r {
        PaintOutcome::Operations(operations) => operations@,
        PaintOutcome::OpacityField { .. } => Seq::empty(),
    };
    match value {
        PaintEditValue::Opacity { percent, alpha, .. } => if paints_glyphs(doc, id, is_stroke) {
            r is Operations && crate::design_data::edits_data(
                operations,
                doc,
                id,
                DataEdit::Text(TextEdit::Style(StyleEdit::Alpha(alpha))),
            )
        } else if gradient_at(doc, id, is_stroke, index) is None {
            r == (PaintOutcome::OpacityField { percent: percent })
        } else {
            r is Operations && stops_outcome(doc, id, is_stroke, index, value, operations)
        },
        _ => r is Operations && match value {
            PaintEditValue::Color(color) => payload_outcome(
                doc,
                id,
                is_stroke,
                index,
                PaintPayload::Solid(color),
                fraction,
                operations,
            ),
            PaintEditValue::BlendMode(blend) => if paints_glyphs(doc, id, is_stroke) {
                operations == (match crate::scene::find(doc.nodes@, id) {
                    Some(node) => crate::design_properties::blend_operations_of(
                        node,
                        crate::design_values::blend_shown(blend),
                    ),
                    None => Seq::empty(),
                })
            } else {
                match layer_paint(doc, id, is_stroke, index) {
                    Some(before) => repaint_outcome(
                        doc,
                        id,
                        is_stroke,
                        index,
                        before.blended(blend),
                        operations,
                    ),
                    None => operations.len() == 0,
                }
            },
            PaintEditValue::Payload(payload) => payload_outcome(
                doc,
                id,
                is_stroke,
                index,
                payload,
                fraction,
                operations,
            ),
            PaintEditValue::ModelEdit(payload) => match (
                layer_paint(doc, id, is_stroke, index),
                payload,
            ) {
                (Some(_), Some(payload)) => payload_outcome(
                    doc,
                    id,
                    is_stroke,
                    index,
                    payload,
                    fraction,
                    operations,
                ),
                _ => operations.len() == 0,
            },
            PaintEditValue::GradientRun(facts) => run_outcome(
                doc,
                id,
                is_stroke,
                index,
                facts,
                operations,
            ),
            _ => stops_outcome(doc, id, is_stroke, index, value, operations),
        },
    }
}

/// The operations for an edit of a paint.
pub fn paint_edit_operations(
    doc: &Doc,
    id: NodeId,
    is_stroke: bool,
    index: usize,
    value: &PaintEditValue,
    fraction: Scalar,
) -> (r: PaintOutcome)
    ensures
        paint_edit_outcome(*doc, id, is_stroke, index, *value, fraction, r),
{
    let glyphs = is_text_layer(doc, id) && !is_stroke;
    match value {
        PaintEditValue::Color(color) => PaintOutcome::Operations(
            payload_operations(
                doc,
                id,
                is_stroke,
                index,
                &PaintPayload::Solid(*color),
                fraction,
            ),
        ),
        PaintEditValue::Opacity { percent, alpha, .. } => {
            if glyphs {
                return PaintOutcome::Operations(
                    replace_data_operation(
                        doc,
                        id,
                        &DataEdit::Text(TextEdit::Style(StyleEdit::Alpha(*alpha))),
                    ),
                );
            }
            let gradient = match current_paint(doc, id, is_stroke, index) {
                Some(Fill::Gradient { .. }) => true,
                _ => false,
            };
            if gradient {
                PaintOutcome::Operations(stops_operations(doc, id, is_stroke, index, value))
            } else {
                PaintOutcome::OpacityField { percent: *percent }
            }
        },
        PaintEditValue::BlendMode(blend) => {
            if glyphs {
                return PaintOutcome::Operations(
                    blend_mode_operations(doc, id, design_blend_mode(*blend)),
                );
            }
            match current_paint(doc, id, is_stroke, index) {
                Some(before) => PaintOutcome::Operations(
                    repaint_operations(doc, id, is_stroke, index, before.with_blend(*blend)),
                ),
                None => PaintOutcome::Operations(Vec::new()),
            }
        },
        PaintEditValue::Payload(payload) => PaintOutcome::Operations(
            payload_operations(doc, id, is_stroke, index, payload, fraction),
        ),
        PaintEditValue::ModelEdit(payload) => {
            let there = current_paint(doc, id, is_stroke, index).is_some();
            match payload {
                Some(payload) => if there {
                    PaintOutcome::Operations(
                        payload_operations(doc, id, is_stroke, index, payload, fraction),
                    )
                } else {
                    PaintOutcome::Operations(Vec::new())
                },
                None => PaintOutcome::Operations(Vec::new()),
            }
        },
        PaintEditValue::GradientRun(facts) => PaintOutcome::Operations(
            run_operations(doc, id, is_stroke, index, facts),
        ),
        _ => PaintOutcome::Operations(stops_operations(doc, id, is_stroke, index, value)),
    }
}

/// A plain color in the place of a paint, laid down as the paint was.
pub open spec fn solid_outcome(
    doc: Doc,
    id: NodeId,
    is_stroke: bool,
    index: usize,
    color: Color,
    operations: Seq<Operation>,
) -> bool {
    match layer_paint(doc, id, is_stroke, index) {
        Some(before) => repaint_outcome(
            doc,
            id,
            is_stroke,
            index,
            Fill::Solid { color: color, blend: before.blend_of() },
            operations,
        ),
        None => operations.len() == 0,
    }
}

pub fn solid_paint_color_operations(
    doc: &Doc,
    id: NodeId,
    is_stroke: bool,
    index: usize,
    color: Color,
) -> (operations: Vec<Operation>)
    ensures
        solid_outcome(*doc, id, is_stroke, index, color, operations@),
{
    let blend = match current_paint(doc, id, is_stroke, index) {
        Some(before) => before.paint_blend(),
        None => {
            return Vec::new();
        },
    };
    repaint_operations(doc, id, is_stroke, index, Fill::Solid { color, blend })
}

// ---------------------------------------------------------------------------
// Uploaded media
// ---------------------------------------------------------------------------

/// The paint with an uploaded picture: a picture keeps all but its asset, any
/// other paint becomes a plain one.
pub open spec fn with_image(before: Fill, asset: AssetId, fraction: Scalar) -> Fill {
    match before {
        Fill::Image { mode, opacity, crop, scale, rotation, blend, adjust, .. } => Fill::Image {
            asset: asset,
            mode: mode,
            opacity: opacity,
            crop: crop,
            scale: scale,
            rotation: rotation,
            blend: blend,
            adjust: adjust,
        },
        _ => Fill::Image {
            asset: asset,
            mode: ImageFitMode::Fill,
            opacity: opacity_fraction(Some(before), fraction),
            crop: None,
            scale: None,
            rotation: None,
            blend: before.blend_of(),
            adjust: ImageAdjust::none(),
        },
    }
}

pub fn image_paint(before: &Fill, asset: AssetId, fraction: Scalar) -> (fill: Fill)
    ensures
        fill == with_image(*before, asset, fraction),
{
    match before {
        Fill::Image { mode, opacity, crop, scale, rotation, blend, adjust, .. } => Fill::Image {
            asset,
            mode: *mode,
            opacity: *opacity,
            crop: *crop,
            scale: *scale,
            rotation: *rotation,
            blend: *blend,
            adjust: *adjust,
        },
        _ => Fill::Image {
            asset,
            mode: ImageFitMode::Fill,
            opacity: paint_opacity_fraction(Some(before), fraction),
            crop: None,
            scale: None,
            rotation: None,
            blend: before.paint_blend(),
            adjust: ImageAdjust::none(),
        },
    }
}

/// The paint with an uploaded video and its poster.
pub open spec fn with_video(
    before: Fill,
    asset: AssetId,
    poster: Option<AssetId>,
    fraction: Scalar,
) -> Fill {
    match before {
        Fill::Video { video, opacity, blend } => Fill::Video {
            video: VideoFill { asset: asset, poster: poster, ..video },
            opacity: opacity,
            blend: blend,
        },
        _ => Fill::Video {
            video: VideoFill {
                asset: asset,
                poster: poster,
                mode: ImageFitMode::Fill,
                crop: None,
                scale: None,
                rotation: None,
                adjust: ImageAdjust::none(),
            },
            opacity: opacity_fraction(Some(before), fraction),
            blend: before.blend_of(),
        },
    }
}

pub fn video_paint(
    before: &Fill,
    asset: AssetId,
    poster: Option<AssetId>,
    fraction: Scalar,
) -> (fill: Fill)
    ensures
        fill == with_video(*before, asset, poster, fraction),
{
    match before {
        Fill::Video { video, opacity, blend } => Fill::Video {
            video: VideoFill { asset, poster, ..*video },
            opacity: *opacity,
            blend: *blend,
        },
        _ => Fill::Video {
            video: VideoFill {
                asset,
                poster,
                mode: ImageFitMode::Fill,
                crop: None,
                scale: None,
                rotation: None,
                adjust: ImageAdjust::none(),
            },
            opacity: paint_opacity_fraction(Some(before), fraction),
            blend: before.paint_blend(),
        },
    }
}

/// What putting an uploaded paint into a layer does.
pub open spec fn upload_outcome(
    before: Doc,
    after: Doc,
    id: NodeId,
    is_stroke: bool,
    index: usize,
    fill: Fill,
    done: Option<Operation>,
) -> bool {
    match layer_paint(before, id, is_stroke, index) {
        None => done is None && after == before,
        Some(_) => {
            let node = crate::scene::find(before.nodes@, id)->0;
            exists|new: NodeData| #[trigger]
                repainted(*node.data, is_stroke, index as int, fill, new) && match done {
                    None => node.data.alike(new) && after == before,
                    Some(operation) => {
                        &&& !node.data.alike(new)
                        &&& after.keeps_rest(before)
                        &&& crate::layer_context_ops::replaces(operation, node, new)
                        &&& after.content() == crate::operations::applied(
                            before.content(),
                            operation,
                        )
                    },
                }
        },
    }
}

/// Puts an uploaded paint into a layer; the operation that did, where one did.
pub fn replace_paint_with_upload(
    doc: &mut Doc,
    id: NodeId,
    is_stroke: bool,
    index: usize,
    fill: Fill,
) -> (done: Option<Operation>)
    requires
        old(doc).well_formed(),
    ensures
        final(doc).well_formed(),
        upload_outcome(*old(doc), *final(doc), id, is_stroke, index, fill, done),
{
    let operations = repaint_operations(doc, id, is_stroke, index, fill);
    if operations.len() == 0 {
        return None;
    }
    proof {
        crate::operations::lemma_find_is_content(*doc, id);
    }
    match doc.apply(&operations[0]) {
        Ok(_) => Some(operations[0].copy()),
        Err(_) => None,
    }
}

// ---------------------------------------------------------------------------
// Laws
// ---------------------------------------------------------------------------

proof fn lemma_inserted_len(stops: Seq<GradientStop>, stop: GradientStop)
    ensures
        stop_inserted(stops, stop).len() == stops.len() + 1,
    decreases stops.len(),
{
    if !(stops.len() == 0 || order_key(stops.last().position) <= order_key(stop.position)) {
        lemma_inserted_len(stops.drop_last(), stop);
    }
}

proof fn lemma_sorted_len(stops: Seq<GradientStop>)
    ensures
        stops_sorted(stops).len() == stops.len(),
    decreases stops.len(),
{
    if stops.len() > 0 {
        lemma_sorted_len(stops.drop_last());
        lemma_inserted_len(stops_sorted(stops.drop_last()), stops.last());
    }
}

/// The positions go up.
pub open spec fn in_order(stops: Seq<GradientStop>) -> bool {
    forall|i: int, j: int|
        0 <= i <= j < stops.len() ==> order_key((#[trigger] stops[i]).position) <= order_key(
            (#[trigger] stops[j]).position,
        )
}

proof fn lemma_inserted_in_order(stops: Seq<GradientStop>, stop: GradientStop)
    requires
        in_order(stops),
    ensures
        in_order(stop_inserted(stops, stop)),
        forall|k: int|
            0 <= k < stop_inserted(stops, stop).len() ==> (#[trigger] stop_inserted(
                stops,
                stop,
            )[k] == stop || stops.contains(stop_inserted(stops, stop)[k])),
    decreases stops.len(),
{
    let all = stop_inserted(stops, stop);
    if stops.len() == 0 || order_key(stops.last().position) <= order_key(stop.position) {
        assert forall|i: int, j: int| 0 <= i <= j < all.len() implies order_key(
            (#[trigger] all[i]).position,
        ) <= order_key((#[trigger] all[j]).position) by {
            if j == stops.len() && i < j {
                assert(order_key(stops[i].position) <= order_key(
                    stops[stops.len() - 1].position,
                ));
            }
        }
        assert forall|k: int| 0 <= k < all.len() implies (#[trigger] all[k] == stop
            || stops.contains(all[k])) by {
            if k < stops.len() {
                assert(stops[k] == all[k]);
            }
        }
    } else {
        let front = stops.drop_last();
        let inner = stop_inserted(front, stop);
        let last = stops.last();
        assert(in_order(front)) by {
            assert forall|i: int, j: int| 0 <= i <= j < front.len() implies order_key(
                (#[trigger] front[i]).position,
            ) <= order_key((#[trigger] front[j]).position) by {
                assert(front[i] == stops[i]);
                assert(front[j] == stops[j]);
            }
        }
        lemma_inserted_in_order(front, stop);
        assert forall|k: int| 0 <= k < inner.len() implies order_key(
            (#[trigger] inner[k]).position,
        ) <= order_key(last.position) by {
            if inner[k] != stop {
                let m = choose|m: int| 0 <= m < front.len() && front[m] == inner[k];
                assert(stops[m] == inner[k]);
                assert(order_key(stops[m].position) <= order_key(
                    stops[stops.len() - 1].position,
                ));
            }
        }
        assert forall|i: int, j: int| 0 <= i <= j < all.len() implies order_key(
            (#[trigger] all[i]).position,
        ) <= order_key((#[trigger] all[j]).position) by {
            if j < inner.len() {
                assert(all[i] == inner[i]);
                assert(all[j] == inner[j]);
            } else if i < inner.len() {
                assert(all[i] == inner[i]);
            }
        }
        assert forall|k: int| 0 <= k < all.len() implies (#[trigger] all[k] == stop
            || stops.contains(all[k])) by {
            if k < inner.len() {
                assert(all[k] == inner[k]);
                if inner[k] != stop {
                    let m = choose|m: int| 0 <= m < front.len() && front[m] == inner[k];
                    assert(stops[m] == inner[k]);
                }
            } else {
                assert(stops[stops.len() - 1] == all[k]);
            }
        }
    }
}

/// Sorted stops are in order.
pub proof fn lemma_sorted_in_order(stops: Seq<GradientStop>)
    ensures
        in_order(stops_sorted(stops)),
    decreases stops.len(),
{
    if stops.len() > 0 {
        lemma_sorted_in_order(stops.drop_last());
        lemma_inserted_in_order(stops_sorted(stops.drop_last()), stops.last());
    }
}

/// No edit leaves a gradient of two or more stops with fewer than two, and a stop
/// that is moved or added leaves all in order.
pub proof fn lemma_gradient_keeps_stops(stops: Seq<GradientStop>, value: PaintEditValue)
    requires
        stops.len() >= 2,
    ensures
        stops_edited(stops, value) matches Some(edited) ==> edited.len() >= 2,
        value is GradientStopPosition || value is GradientStopAdd ==> (stops_edited(
            stops,
            value,
        ) matches Some(edited) ==> in_order(edited)),
{
    match value {
        PaintEditValue::GradientStopPosition(index, position) => {
            if index < stops.len() {
                let changed = stops.update(
                    index as int,
                    GradientStop {
                        position: on_gradient(position),
                        color: stops[index as int].color,
                    },
                );
                lemma_sorted_len(changed);
                lemma_sorted_in_order(changed);
            }
        },
        PaintEditValue::GradientStopAdd(position, color) => {
            let changed = stops.push(
                GradientStop { position: on_gradient(position), color: color },
            );
            lemma_sorted_len(changed);
            lemma_sorted_in_order(changed);
        },
        _ => {},
    }
}

/// A built gradient has at least two stops.
pub proof fn lemma_built_gradient_has_stops(
    stops: Seq<GradientStop>,
    facts: GradientFacts,
    gradient: Gradient,
)
    requires
        gradient_built(stops, facts, Some(gradient)),
    ensures
        gradient.stops@.len() >= 2,
        gradient.stops@.len() == stops.len(),
{
    if let Some(positions) = facts.mirrored {
        lemma_sorted_len(moved_stops(clamped_stops(stops), positions@));
    }
}

/// Whatever a payload turns a paint into, it is laid down as before.
pub proof fn lemma_payload_keeps_blend(
    doc: Doc,
    id: NodeId,
    before: Fill,
    payload: PaintPayload,
    fraction: Scalar,
    fill: Fill,
)
    requires
        payload_fill(doc, id, before, payload, fraction, Some(fill)),
    ensures
        fill.blend_of() == before.blend_of(),
{
}

} // verus!
