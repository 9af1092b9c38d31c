//! Laws: what edits of paints, strokes and effects make of a document, said of the
//! document as it is once their operations are carried out.

use vstd::prelude::*;

use crate::design_data::{DataEdit, StyleEdit, TextEdit};
use crate::design_effects::{EffectKind, EffectProperty, EffectRef, EffectValue};
use crate::design_lists::ListEdit;
use crate::design_paints::{PaintEditValue, PaintOutcome};
use crate::document::{Blur, CanvasNode, Doc, GroupNode, NodeData, Shadow, TextNode, VectorNode};
use crate::ids::NodeId;
use crate::operations::Operation;
use crate::paint::{BlendMode, Color, Fill, Gradient, GradientStop, Stroke};
use crate::sameness::Compared;
use crate::scalar::Scalar;

verus! {

/// Data that are renewed are the new ones, or the ones that were there and equal them.
proof fn lemma_renewed(doc: Doc, id: NodeId, operations: Seq<Operation>, new: NodeData)
    requires
        doc.well_formed(),
        doc.content().nodes.dom().contains(id),
        crate::design_data::renews(operations, doc.content().nodes[id], new),
    ensures
        crate::inspector_laws::changes_only(doc, id, operations),
        ({
            let before = doc.content().nodes[id];
            let after = crate::inspector_laws::afterwards(doc, operations).nodes[id];
            &&& after == (CanvasNode { data: after.data, ..before })
            &&& *after.data == new || after.data == before.data && before.data.alike(new)
        }),
{
    crate::operations::lemma_find_is_content(doc, id);
    let before = doc.content();
    crate::inspector_laws::lemma_two_steps(before, operations);
    assert(before.nodes.insert(id, before.nodes[id]) =~= before.nodes);
    let after = crate::inspector_laws::afterwards(doc, operations);
    assert(after.nodes =~= before.nodes.insert(id, after.nodes[id]));
}

proof fn lemma_unchanged(doc: Doc, id: NodeId, operations: Seq<Operation>)
    requires
        doc.content().nodes.dom().contains(id),
        operations.len() == 0,
    ensures
        crate::inspector_laws::changes_only(doc, id, operations),
        crate::inspector_laws::afterwards(doc, operations) == doc.content(),
{
    let before = doc.content();
    crate::inspector_laws::lemma_two_steps(before, operations);
    assert(before.nodes.insert(id, before.nodes[id]) =~= before.nodes);
}

// ---------------------------------------------------------------------------
// Fills and strokes of a layer
// ---------------------------------------------------------------------------

/// The fills of an outline or a group, the background of a group first.
pub open spec fn fills_in(data: NodeData) -> Seq<Fill> {
    match data {
        NodeData::Vector(vector) => vector.fills@,
        NodeData::Group(group) => match group.background {
            Some(background) => seq![background] + group.background_fills@,
            None => group.background_fills@,
        },
        _ => Seq::empty(),
    }
}

/// Nothing but the fills differs, and a background stays one.
pub open spec fn same_but_fills(a: NodeData, b: NodeData) -> bool {
    match (a, b) {
        (NodeData::Vector(a), NodeData::Vector(b)) => b == (VectorNode { fills: b.fills, ..a }),
        (NodeData::Group(a), NodeData::Group(b)) => b == (GroupNode {
            background: b.background,
            background_fills: b.background_fills,
            ..a
        }) && (b.background is Some <==> a.background is Some),
        _ => false,
    }
}

/// Both are one paint.
pub open spec fn one_paint(a: Fill, b: Fill) -> bool {
    a == b || a.alike(b)
}

/// Both are one stroke.
pub open spec fn one_stroke(a: Stroke, b: Stroke) -> bool {
    a == b || a.alike(b)
}

/// The paint at one place of a layer is another, and nothing else differs.
pub open spec fn paint_replaced(
    before: NodeData,
    after: NodeData,
    is_stroke: bool,
    index: int,
    fill: Fill,
) -> bool {
    if is_stroke {
        let was = crate::inspector_laws::strokes_in(before);
        let now = crate::inspector_laws::strokes_in(after);
        &&& crate::inspector_laws::same_but_strokes(before, after)
        &&& now.len() == was.len()
        &&& one_paint(now[index].paint, fill)
        &&& now[index] == (Stroke { paint: now[index].paint, ..was[index] })
        &&& forall|i: int| 0 <= i < was.len() && i != index ==> #[trigger] now[i] == was[i]
    } else {
        let was = fills_in(before);
        let now = fills_in(after);
        &&& same_but_fills(before, after)
        &&& now.len() == was.len()
        &&& one_paint(now[index], fill)
        &&& forall|i: int| 0 <= i < was.len() && i != index ==> #[trigger] now[i] == was[i]
    }
}

/// The paint of a layer at a place.
pub open spec fn paint_of(data: NodeData, is_stroke: bool, index: int) -> Option<Fill> {
    if is_stroke {
        if index < crate::inspector_laws::strokes_in(data).len() {
            Some(crate::inspector_laws::strokes_in(data)[index].paint)
        } else {
            None
        }
    } else if index < fills_in(data).len() {
        Some(fills_in(data)[index])
    } else {
        None
    }
}

proof fn lemma_group_alike(a: GroupNode, b: GroupNode)
    requires
        a.alike(b),
        a.background is Some == b.background is Some,
    ensures
        fills_in(NodeData::Group(a)).len() == fills_in(NodeData::Group(b)).len(),
        forall|i: int|
            0 <= i < fills_in(NodeData::Group(a)).len() ==> (#[trigger] fills_in(
                NodeData::Group(a),
            )[i]).alike(fills_in(NodeData::Group(b))[i]),
{
    let was = fills_in(NodeData::Group(a));
    let now = fills_in(NodeData::Group(b));
    assert forall|i: int| 0 <= i < was.len() implies (#[trigger] was[i]).alike(now[i]) by {
        if a.background is Some {
            if i > 0 {
                assert(was[i] == a.background_fills@[i - 1]);
                assert(now[i] == b.background_fills@[i - 1]);
            }
        }
    }
}

pub(crate) proof fn lemma_repainted(
    doc: Doc,
    id: NodeId,
    is_stroke: bool,
    index: usize,
    fill: Fill,
    operations: Seq<Operation>,
)
    requires
        doc.well_formed(),
        doc.content().nodes.dom().contains(id),
        paint_of(*doc.content().nodes[id].data, is_stroke, index as int) is Some,
        crate::design_paints::repaint_outcome(doc, id, is_stroke, index, fill, operations),
    ensures
        crate::inspector_laws::changes_only(doc, id, operations),
        ({
            let before = doc.content().nodes[id];
            let after = crate::inspector_laws::afterwards(doc, operations).nodes[id];
            &&& after == (CanvasNode { data: after.data, ..before })
            &&& paint_replaced(*before.data, *after.data, is_stroke, index as int, fill)
        }),
{
    crate::operations::lemma_find_is_content(doc, id);
    let node = doc.content().nodes[id];
    let old = *doc.content().nodes[id].data;
    let new = choose|new: NodeData| #[trigger]
        crate::design_paints::repainted(old, is_stroke, index as int, fill, new)
            && crate::design_data::renews(operations, node, new);
    assert(crate::design_paints::repainted(old, is_stroke, index as int, fill, new));
    lemma_renewed(doc, id, operations, new);
    let next = *crate::inspector_laws::afterwards(doc, operations).nodes[id].data;
    let at = index as int;
    if is_stroke {
        assert(crate::inspector_laws::strokes_in(new)[at].paint == fill);
        assert(next == new || crate::inspector_laws::strokes_in(old)[at].alike(
            crate::inspector_laws::strokes_in(new)[at],
        ));
    } else {
        assert(fills_in(new)[at] == fill);
        match new {
            NodeData::Group(b) => {
                if old.alike(new) {
                    lemma_group_alike(old->Group_0, b);
                }
            },
            _ => {},
        }
        assert(next == new || fills_in(old)[at].alike(fills_in(new)[at]));
    }
}

/// A color that is given to a paint makes it that plain color, blended as before; the
/// other paints and all else stay.
pub proof fn lemma_color_lands(
    doc: Doc,
    id: NodeId,
    is_stroke: bool,
    index: usize,
    color: Color,
    fraction: Scalar,
    before: Fill,
    r: PaintOutcome,
)
    requires
        doc.well_formed(),
        doc.content().nodes.dom().contains(id),
        paint_of(*doc.content().nodes[id].data, is_stroke, index as int) == Some(before),
        crate::design_paints::paint_edit_outcome(
            doc,
            id,
            is_stroke,
            index,
            PaintEditValue::Color(color),
            fraction,
            r,
        ),
    ensures
        r matches PaintOutcome::Operations(operations) && {
            let node = doc.content().nodes[id];
            let after = crate::inspector_laws::afterwards(doc, operations@).nodes[id];
            let now = paint_of(*after.data, is_stroke, index as int);
            &&& crate::inspector_laws::changes_only(doc, id, operations@)
            &&& after == (CanvasNode { data: after.data, ..node })
            &&& now matches Some(Fill::Solid { color: shown, blend }) && shown == color && match
                before {
                Fill::Solid { blend: was, .. } => blend == was,
                Fill::Gradient { blend: was, .. } => blend == was,
                Fill::Image { blend: was, .. } => blend == was,
                Fill::Pattern { blend: was, .. } => blend == was,
                Fill::Video { blend: was, .. } => blend == was,
                Fill::Shader { blend: was, .. } => blend == was,
            }
            &&& paint_replaced(*node.data, *after.data, is_stroke, index as int, now->0)
        },
{
    crate::operations::lemma_find_is_content(doc, id);
    let fill = Fill::Solid { color: color, blend: before.blend_of() };
    let operations = r->Operations_0@;
    assert(crate::design_paints::layer_paint(doc, id, is_stroke, index) == Some(before));
    assert(crate::design_paints::repaint_outcome(doc, id, is_stroke, index, fill, operations));
    lemma_repainted(doc, id, is_stroke, index, fill, operations);
}

/// The color of a text is that of its glyphs, in every stretch of it; nothing else of
/// it changes.
pub proof fn lemma_text_color_lands(
    doc: Doc,
    id: NodeId,
    index: usize,
    color: Color,
    fraction: Scalar,
    text: TextNode,
    r: PaintOutcome,
)
    requires
        doc.well_formed(),
        doc.content().nodes.dom().contains(id),
        *doc.content().nodes[id].data == NodeData::Text(text),
        crate::design_paints::paint_edit_outcome(
            doc,
            id,
            false,
            index,
            PaintEditValue::Color(color),
            fraction,
            r,
        ),
    ensures
        r matches PaintOutcome::Operations(operations) && {
            let node = doc.content().nodes[id];
            let after = crate::inspector_laws::afterwards(doc, operations@).nodes[id];
            &&& crate::inspector_laws::changes_only(doc, id, operations@)
            &&& after == (CanvasNode { data: after.data, ..node })
            &&& *after.data matches NodeData::Text(now) && {
                &&& now == (TextNode { style: now.style, style_runs: now.style_runs, ..text })
                &&& now.style == (crate::document::TextStyle { color: color, ..text.style })
                &&& now.style_runs@.len() == text.style_runs@.len()
                &&& forall|i: int|
                    0 <= i < text.style_runs@.len() ==> (#[trigger] now.style_runs@[i]).style == (
                    crate::document::TextStyle { color: color, ..text.style_runs@[i].style })
                        && now.style_runs@[i].start == text.style_runs@[i].start
                        && now.style_runs@[i].end == text.style_runs@[i].end
            }
        },
{
    crate::operations::lemma_find_is_content(doc, id);
    let node = doc.content().nodes[id];
    let old = *doc.content().nodes[id].data;
    let edit = DataEdit::Text(TextEdit::Style(StyleEdit::Color(color)));
    let operations = r->Operations_0@;
    assert(crate::design_data::edits_data(operations, doc, id, edit));
    let new = choose|new: NodeData| #[trigger]
        crate::design_data::data_edited(old, edit, new) && crate::design_data::renews(
            operations,
            node,
            new,
        );
    lemma_renewed(doc, id, operations, new);
    let next = *crate::inspector_laws::afterwards(doc, operations).nodes[id].data;
    let now = next->Text_0;
    assert forall|i: int| 0 <= i < text.style_runs@.len() implies (
    #[trigger] now.style_runs@[i]).style == (crate::document::TextStyle {
        color: color,
        ..text.style_runs@[i].style
    }) && now.style_runs@[i].start == text.style_runs@[i].start && now.style_runs@[i].end
        == text.style_runs@[i].end by {
        let wanted = new->Text_0;
        assert(wanted.style_runs@[i].style == (crate::document::TextStyle {
            color: color,
            ..text.style_runs@[i].style
        }));
        if next != new {
            assert(text.alike(wanted));
            assert(text.style_runs@[i].alike(wanted.style_runs@[i]));
        }
    }
}

/// Both paints are one but for how they blend.
pub open spec fn same_but_blend(a: Fill, b: Fill) -> bool {
    match (a, b) {
        (Fill::Solid { color: x, .. }, Fill::Solid { color: y, .. }) => x == y,
        (Fill::Gradient { gradient: x, .. }, Fill::Gradient { gradient: y, .. }) => x == y,
        (
            Fill::Image { asset: x, mode: m, opacity: o, crop: c, scale: s, rotation: r, adjust: j, .. },
            Fill::Image { asset: y, mode: n, opacity: p, crop: d, scale: t, rotation: q, adjust: k, .. },
        ) => x == y && m == n && o == p && c == d && s == t && r == q && j == k,
        (Fill::Pattern { pattern: x, opacity: o, .. }, Fill::Pattern { pattern: y, opacity: p, .. }) =>
            x == y && o == p,
        (Fill::Video { video: x, opacity: o, .. }, Fill::Video { video: y, opacity: p, .. }) => x == y
            && o == p,
        (Fill::Shader { shader: x, opacity: o, .. }, Fill::Shader { shader: y, opacity: p, .. }) => x
            == y && o == p,
        _ => false,
    }
}

/// How a paint blends.
pub open spec fn blends(fill: Fill) -> BlendMode {
    match fill {
        Fill::Solid { blend, .. } => blend,
        Fill::Gradient { blend, .. } => blend,
        Fill::Image { blend, .. } => blend,
        Fill::Pattern { blend, .. } => blend,
        Fill::Video { blend, .. } => blend,
        Fill::Shader { blend, .. } => blend,
    }
}

/// A blend mode that is given to a paint is the one it blends with, and the paint is
/// otherwise the same; the other paints and all else stay.
pub proof fn lemma_paint_blend_lands(
    doc: Doc,
    id: NodeId,
    is_stroke: bool,
    index: usize,
    blend: BlendMode,
    fraction: Scalar,
    before: Fill,
    r: PaintOutcome,
)
    requires
        doc.well_formed(),
        doc.content().nodes.dom().contains(id),
        paint_of(*doc.content().nodes[id].data, is_stroke, index as int) == Some(before),
        crate::design_paints::paint_edit_outcome(
            doc,
            id,
            is_stroke,
            index,
            PaintEditValue::BlendMode(blend),
            fraction,
            r,
        ),
    ensures
        r matches PaintOutcome::Operations(operations) && {
            let node = doc.content().nodes[id];
            let after = crate::inspector_laws::afterwards(doc, operations@).nodes[id];
            let now = paint_of(*after.data, is_stroke, index as int);
            &&& crate::inspector_laws::changes_only(doc, id, operations@)
            &&& after == (CanvasNode { data: after.data, ..node })
            &&& now matches Some(fill) && blends(fill) == blend && same_but_blend(before, fill)
            &&& paint_replaced(*node.data, *after.data, is_stroke, index as int, now->0)
        },
{
    crate::operations::lemma_find_is_content(doc, id);
    let fill = before.blended(blend);
    let operations = r->Operations_0@;
    assert(crate::design_paints::layer_paint(doc, id, is_stroke, index) == Some(before));
    lemma_repainted(doc, id, is_stroke, index, fill, operations);
}

// ---------------------------------------------------------------------------
// Gradient stops
// ---------------------------------------------------------------------------

/// A position between the ends: before the start it is the start, behind the end it is
/// the end.
pub open spec fn between_ends(asked: Scalar, kept: Scalar) -> bool {
    if !asked.nan() && asked.rank() < 0 {
        kept.bits == 0
    } else if !asked.nan() && asked.rank() > 0x3ff0_0000_0000_0000 {
        kept.bits == 0x3ff0_0000_0000_0000
    } else {
        kept == asked
    }
}

/// One of the stops has this color and stands at this position.
pub open spec fn holds_stop(stops: Seq<GradientStop>, color: Color, position: Scalar) -> bool {
    exists|i: int|
        0 <= i < stops.len() && (#[trigger] stops[i]).color == color && between_ends(
            position,
            stops[i].position,
        )
}

/// What an edit makes of the stops of a gradient: a color is that of its stop alone, a
/// stop is taken out only where two stay, a new one joins with its color, and the
/// strongest stops take a new opacity while clear ones stay clear.
pub proof fn lemma_stops_edited(stops: Seq<GradientStop>, value: PaintEditValue)
    ensures
        match (value, crate::design_paints::stops_edited(stops, value)) {
            (PaintEditValue::GradientStopColor(index, color), now) => if index < stops.len() {
                now matches Some(now) && now.len() == stops.len() && now[index as int].color
                    == color && now[index as int].position == stops[index as int].position && (
                forall|i: int|
                    0 <= i < stops.len() && i != index ==> #[trigger] now[i] == stops[i])
            } else {
                now is None
            },
            (PaintEditValue::GradientStopRemove(index), now) => if stops.len() > 2 && index
                < stops.len() {
                now matches Some(now) && now.len() == stops.len() - 1 && (forall|i: int|
                    0 <= i < now.len() ==> #[trigger] now[i] == if i < index {
                        stops[i]
                    } else {
                        stops[i + 1]
                    })
            } else {
                now is None
            },
            (PaintEditValue::GradientStopAdd(position, color), now) => {
                &&& now is Some <==> -0x7ff0_0000_0000_0000 < position.rank()
                    < 0x7ff0_0000_0000_0000
                &&& now is Some ==> now->0.len() == stops.len() + 1 && holds_stop(
                    now->0,
                    color,
                    position,
                )
            },
            (PaintEditValue::GradientStopPosition(index, position), now) => {
                &&& now is Some <==> index < stops.len()
                &&& now is Some ==> now->0.len() == stops.len() && holds_stop(
                    now->0,
                    stops[index as int].color,
                    position,
                )
            },
            (PaintEditValue::Opacity { alpha, scaled, .. }, now) => if scaled@.len()
                == stops.len() {
                now matches Some(now) && now.len() == stops.len() && (forall|i: int|
                    0 <= i < stops.len() ==> {
                        &&& (#[trigger] now[i]).position == stops[i].position
                        &&& now[i].color == (Color { a: now[i].color.a, ..stops[i].color })
                        &&& (forall|j: int|
                            0 <= j < stops.len() ==> (#[trigger] stops[j]).color.a
                                <= stops[i].color.a) ==> now[i].color.a == alpha
                        &&& stops[i].color.a == 0 && (exists|j: int|
                            0 <= j < stops.len() && (#[trigger] stops[j]).color.a > 0)
                            ==> now[i].color.a == 0
                    })
            } else {
                now is None
            },
            _ => true,
        },
{
    crate::design_paint_view::lemma_strongest(stops);
    match value {
        PaintEditValue::GradientStopAdd(position, color) => {
            if position.finite() {
                let new = GradientStop {
                    position: crate::design_paints::on_gradient(position),
                    color: color,
                };
                let all = stops.push(new);
                lemma_sorted_holds(all);
                assert(all[stops.len() as int] == new);
                let sorted = crate::design_paints::stops_sorted(all);
                assert(sorted.contains(new));
                let i = choose|i: int| 0 <= i < sorted.len() && sorted[i] == new;
                assert(sorted[i].color == new.color && between_ends(position, sorted[i].position));
                assert(holds_stop(sorted, new.color, position));
            }
        },
        PaintEditValue::GradientStopPosition(index, position) => {
            if index < stops.len() {
                let new = GradientStop {
                    position: crate::design_paints::on_gradient(position),
                    color: stops[index as int].color,
                };
                let all = stops.update(index as int, new);
                lemma_sorted_holds(all);
                assert(all[index as int] == new);
                let sorted = crate::design_paints::stops_sorted(all);
                assert(sorted.contains(new));
                let i = choose|i: int| 0 <= i < sorted.len() && sorted[i] == new;
                assert(sorted[i].color == new.color && between_ends(position, sorted[i].position));
                assert(holds_stop(sorted, new.color, position));
            }
        },
        _ => {},
    }
}

proof fn lemma_inserted_holds(stops: Seq<GradientStop>, stop: GradientStop)
    ensures
        crate::design_paints::stop_inserted(stops, stop).len() == stops.len() + 1,
        forall|x: GradientStop| #[trigger]
            crate::design_paints::stop_inserted(stops, stop).contains(x) <==> x == stop
                || stops.contains(x),
    decreases stops.len(),
{
    let all = crate::design_paints::stop_inserted(stops, stop);
    if stops.len() > 0 && !(crate::design_paints::order_key(stops.last().position)
        <= crate::design_paints::order_key(stop.position)) {
        let rest = stops.drop_last();
        lemma_inserted_holds(rest, stop);
        lemma_more(crate::design_paints::stop_inserted(rest, stop), stops.last());
        lemma_more(rest, stops.last());
        assert(rest.push(stops.last()) =~= stops);
    } else {
        lemma_more(stops, stop);
    }
}

proof fn lemma_more<T>(list: Seq<T>, x: T)
    ensures
        forall|y: T| #[trigger] list.push(x).contains(y) <==> y == x || list.contains(y),
{
    assert(list.push(x)[list.len() as int] == x);
    assert forall|y: T| #[trigger] list.push(x).contains(y) <==> y == x || list.contains(y) by {
        if list.contains(y) {
            let i = choose|i: int| 0 <= i < list.len() && list[i] == y;
            assert(list.push(x)[i] == y);
        }
    }
}

proof fn lemma_sorted_holds(stops: Seq<GradientStop>)
    ensures
        crate::design_paints::stops_sorted(stops).len() == stops.len(),
        forall|x: GradientStop| #[trigger]
            crate::design_paints::stops_sorted(stops).contains(x) <==> stops.contains(x),
    decreases stops.len(),
{
    if stops.len() > 0 {
        let rest = stops.drop_last();
        lemma_sorted_holds(rest);
        lemma_inserted_holds(crate::design_paints::stops_sorted(rest), stops.last());
        lemma_more(rest, stops.last());
        assert(rest.push(stops.last()) =~= stops);
    }
}

/// The stops of a gradient after an edit are laid down where the gradient was, blended
/// as before; the other paints and all else stay.
pub proof fn lemma_gradient_edit_lands(
    doc: Doc,
    id: NodeId,
    is_stroke: bool,
    index: usize,
    value: PaintEditValue,
    fraction: Scalar,
    gradient: Gradient,
    blend: BlendMode,
    r: PaintOutcome,
)
    requires
        doc.well_formed(),
        doc.content().nodes.dom().contains(id),
        paint_of(*doc.content().nodes[id].data, is_stroke, index as int) == Some(
            Fill::Gradient { gradient: gradient, blend: blend },
        ),
        value is GradientStopColor || value is GradientStopPosition || value is GradientStopAdd
            || value is GradientStopRemove || value is Opacity,
        crate::design_paints::paint_edit_outcome(
            doc,
            id,
            is_stroke,
            index,
            value,
            fraction,
            r,
        ),
    ensures
        r matches PaintOutcome::Operations(operations) && {
            let node = doc.content().nodes[id];
            let after = crate::inspector_laws::afterwards(doc, operations@).nodes[id];
            let now = paint_of(*after.data, is_stroke, index as int);
            &&& crate::inspector_laws::changes_only(doc, id, operations@)
            &&& after == (CanvasNode { data: after.data, ..node })
            &&& match crate::design_paints::stops_edited(gradient.stops@, value) {
                Some(stops) => {
                    &&& now matches Some(Fill::Gradient { gradient: shown, blend: still }) && still
                        == blend && shown.stops@.len() == stops.len() && (forall|i: int|
                        0 <= i < stops.len() ==> (#[trigger] shown.stops@[i]).color
                            == stops[i].color && (shown.stops@[i].position == stops[i].position
                            || shown.stops@[i].position.same(stops[i].position)))
                    &&& paint_replaced(*node.data, *after.data, is_stroke, index as int, now->0)
                },
                None => after == node,
            }
        },
{
    crate::operations::lemma_find_is_content(doc, id);
    let operations = r->Operations_0@;
    let before = Fill::Gradient { gradient: gradient, blend: blend };
    assert(crate::design_paints::layer_paint(doc, id, is_stroke, index) == Some(before));
    match crate::design_paints::stops_edited(gradient.stops@, value) {
        Some(stops) => {
            let fill = choose|fill: Fill| #[trigger]
                crate::design_paints::lays_gradient(fill, before, gradient.geometry, stops)
                    && crate::design_paints::repaint_outcome(
                    doc,
                    id,
                    is_stroke,
                    index,
                    fill,
                    operations,
                );
            lemma_repainted(doc, id, is_stroke, index, fill, operations);
            let next = *crate::inspector_laws::afterwards(doc, operations).nodes[id].data;
            let now = paint_of(next, is_stroke, index as int)->0;
            assert(one_paint(now, fill));
            let shown = now->Gradient_gradient;
            assert forall|i: int| 0 <= i < stops.len() implies (#[trigger] shown.stops@[i]).color
                == stops[i].color && (shown.stops@[i].position == stops[i].position
                || shown.stops@[i].position.same(stops[i].position)) by {
                if now != fill {
                    assert(shown.stops@[i].alike(fill->Gradient_gradient.stops@[i]));
                }
            }
        },
        None => {
            lemma_unchanged(doc, id, operations);
        },
    }
}

// ---------------------------------------------------------------------------
// Lists of strokes and fills
// ---------------------------------------------------------------------------

/// What an edit of a list makes of the places of its items: `at(i)` is where the item
/// at place `i` comes from.
pub open spec fn comes_from(edit: ListEdit, i: int) -> int {
    match edit {
        ListEdit::Move { from, to } => if i == to {
            from as int
        } else if from < to {
            if from <= i < to {
                i + 1
            } else {
                i
            }
        } else if to <= i - 1 < from {
            i - 1
        } else {
            i
        },
        ListEdit::Remove { index } => if i < index {
            i
        } else {
            i + 1
        },
        ListEdit::Append => i,
    }
}

/// An edit of the strokes of a layer: a stroke that is moved stands at its new place
/// and the others keep their order, one that is taken out is gone, and a new one
/// stands last. Nothing else changes.
pub proof fn lemma_stroke_list_lands(
    doc: Doc,
    id: NodeId,
    edit: ListEdit,
    new: Stroke,
    operations: Seq<Operation>,
)
    requires
        doc.well_formed(),
        doc.content().nodes.dom().contains(id),
        *doc.content().nodes[id].data is Vector || *doc.content().nodes[id].data is Group,
        match edit {
            ListEdit::Move { from, to } => from < crate::inspector_laws::strokes_in(
                *doc.content().nodes[id].data,
            ).len() && to < crate::inspector_laws::strokes_in(
                *doc.content().nodes[id].data,
            ).len(),
            ListEdit::Remove { index } => index < crate::inspector_laws::strokes_in(
                *doc.content().nodes[id].data,
            ).len(),
            ListEdit::Append => true,
        },
        crate::design_lists::stroke_list_outcome(doc, id, edit, new, operations),
    ensures
        crate::inspector_laws::changes_only(doc, id, operations),
        ({
            let node = doc.content().nodes[id];
            let after = crate::inspector_laws::afterwards(doc, operations).nodes[id];
            let was = crate::inspector_laws::strokes_in(*node.data);
            let now = crate::inspector_laws::strokes_in(*after.data);
            &&& after == (CanvasNode { data: after.data, ..node })
            &&& crate::inspector_laws::same_but_strokes(*node.data, *after.data)
            &&& now.len() == match edit {
                ListEdit::Move { .. } => was.len() as int,
                ListEdit::Remove { .. } => was.len() - 1,
                ListEdit::Append => (was.len() + 1) as int,
            }
            &&& edit is Append ==> one_stroke(now[was.len() as int], new)
            &&& forall|i: int|
                0 <= i < now.len() && !(edit is Append && i == was.len()) ==> one_stroke(
                    #[trigger] now[i],
                    was[comes_from(edit, i)],
                )
        }),
{
    crate::operations::lemma_find_is_content(doc, id);
    let node = doc.content().nodes[id];
    let old = *doc.content().nodes[id].data;
    let was = crate::inspector_laws::strokes_in(old);
    let wanted = crate::design_lists::list_edited(was, edit, new);
    let data = choose|data: NodeData| #[trigger]
        crate::design_lists::strokes_set(old, wanted, data) && crate::design_data::renews(
            operations,
            node,
            data,
        );
    assert(crate::design_lists::strokes_set(old, wanted, data));
    lemma_renewed(doc, id, operations, data);
    let next = *crate::inspector_laws::afterwards(doc, operations).nodes[id].data;
    let now = crate::inspector_laws::strokes_in(next);
    assert(crate::inspector_laws::strokes_in(data) == wanted);
    assert(now.len() == wanted.len());
    assert forall|i: int| 0 <= i < now.len() implies one_stroke(#[trigger] now[i], wanted[i]) by {
        if next != data {
            assert(was[i].alike(wanted[i]));
        }
    }
    assert forall|i: int|
        0 <= i < now.len() && !(edit is Append && i == was.len()) implies one_stroke(
        #[trigger] now[i],
        was[comes_from(edit, i)],
    ) by {
        assert(wanted[i] == was[comes_from(edit, i)]);
    }
}

/// A fill that is moved stands at its new place and the others keep their order;
/// nothing else changes.
pub proof fn lemma_fill_move_lands(
    doc: Doc,
    id: NodeId,
    from: usize,
    to: usize,
    operations: Seq<Operation>,
)
    requires
        doc.well_formed(),
        doc.content().nodes.dom().contains(id),
        from < fills_in(*doc.content().nodes[id].data).len(),
        to < fills_in(*doc.content().nodes[id].data).len(),
        crate::design_lists::fill_move_outcome(doc, id, from, to, operations),
    ensures
        crate::inspector_laws::changes_only(doc, id, operations),
        ({
            let node = doc.content().nodes[id];
            let after = crate::inspector_laws::afterwards(doc, operations).nodes[id];
            let was = fills_in(*node.data);
            let now = fills_in(*after.data);
            &&& after == (CanvasNode { data: after.data, ..node })
            &&& same_but_fills(*node.data, *after.data)
            &&& now.len() == was.len()
            &&& forall|i: int|
                0 <= i < now.len() ==> one_paint(
                    #[trigger] now[i],
                    was[comes_from(ListEdit::Move { from: from, to: to }, i)],
                )
        }),
{
    crate::operations::lemma_find_is_content(doc, id);
    let node = doc.content().nodes[id];
    let old = *doc.content().nodes[id].data;
    let was = fills_in(old);
    let wanted = crate::design_lists::moved_item(was, from as int, to as int);
    let data = choose|data: NodeData| #[trigger]
        crate::design_lists::fills_set(old, wanted, data) && crate::design_data::renews(
            operations,
            node,
            data,
        );
    assert(crate::design_lists::fills_set(old, wanted, data));
    lemma_renewed(doc, id, operations, data);
    let next = *crate::inspector_laws::afterwards(doc, operations).nodes[id].data;
    let now = fills_in(next);
    assert(fills_in(data) == wanted);
    match data {
        NodeData::Group(b) => {
            if old.alike(data) {
                lemma_group_alike(old->Group_0, b);
            }
        },
        _ => {},
    }
    assert forall|i: int| 0 <= i < now.len() implies one_paint(#[trigger] now[i], wanted[i]) by {
        if next != data {
            assert(was[i].alike(wanted[i]));
        }
    }
    assert forall|i: int| 0 <= i < now.len() implies one_paint(
        #[trigger] now[i],
        was[comes_from(ListEdit::Move { from: from, to: to }, i)],
    ) by {
        assert(wanted[i] == was[comes_from(ListEdit::Move { from: from, to: to }, i)]);
    }
}

/// A page gets the background color that is asked for; its other fills and all else
/// stay.
pub proof fn lemma_background_lands(
    doc: Doc,
    root: NodeId,
    color: Color,
    group: GroupNode,
    operations: Seq<Operation>,
)
    requires
        doc.well_formed(),
        doc.content().nodes.dom().contains(root),
        *doc.content().nodes[root].data == NodeData::Group(group),
        crate::design_lists::background_outcome(doc, root, color, operations),
    ensures
        crate::inspector_laws::changes_only(doc, root, operations),
        ({
            let node = doc.content().nodes[root];
            let after = crate::inspector_laws::afterwards(doc, operations).nodes[root];
            &&& after == (CanvasNode { data: after.data, ..node })
            &&& *after.data == NodeData::Group(
                GroupNode {
                    background: Some(Fill::Solid { color: color, blend: BlendMode::Normal }),
                    ..group
                },
            )
        }),
{
    crate::operations::lemma_find_is_content(doc, root);
    let new = NodeData::Group(
        GroupNode {
            background: Some(Fill::Solid { color: color, blend: BlendMode::Normal }),
            ..group
        },
    );
    lemma_renewed(doc, root, operations, new);
}

// ---------------------------------------------------------------------------
// Effects
// ---------------------------------------------------------------------------

proof fn lemma_effect_steps(doc: Doc, id: NodeId, operations: Seq<Operation>)
    requires
        doc.well_formed(),
        doc.content().nodes.dom().contains(id),
        operations.len() <= 2,
        forall|i: int|
            0 <= i < operations.len() ==> (#[trigger] operations[i] matches Operation::SetEffects {
                id: layer,
                ..
            } && layer == id) || (operations[i] matches Operation::SetBlurs { id: layer, .. }
                && layer == id),
    ensures
        crate::inspector_laws::changes_only(doc, id, operations),
{
    crate::operations::lemma_find_is_content(doc, id);
    let before = doc.content();
    crate::inspector_laws::lemma_two_steps(before, operations);
    assert(before.nodes.insert(id, before.nodes[id]) =~= before.nodes);
    if operations.len() >= 1 {
        assert(crate::operations::changes(operations[0]) == Some(id));
    }
    if operations.len() == 2 {
        assert(crate::operations::changes(operations[1]) == Some(id));
    }
    let after = crate::inspector_laws::afterwards(doc, operations);
    assert(after.nodes =~= before.nodes.insert(id, after.nodes[id]));
}

/// A new effect is of the kind that is asked for and stands behind the ones that are
/// there; nothing else changes.
pub proof fn lemma_effect_joins(
    doc: Doc,
    id: NodeId,
    kind: EffectKind,
    shadow: Shadow,
    radius: Scalar,
    operations: Seq<Operation>,
)
    requires
        doc.well_formed(),
        doc.content().nodes.dom().contains(id),
        shadow.kind is Drop,
        crate::design_lists::effect_add_outcome(doc, id, kind, shadow, radius, operations),
    ensures
        crate::inspector_laws::changes_only(doc, id, operations),
        ({
            let node = doc.content().nodes[id];
            let after = crate::inspector_laws::afterwards(doc, operations).nodes[id];
            let shadows = after.effects@;
            let blurs = after.blurs@;
            &&& after == (CanvasNode { effects: after.effects, blurs: after.blurs, ..node })
            &&& kind is Unsupported ==> after == node
            &&& kind is DropShadow || kind is InnerShadow ==> {
                &&& after.blurs == node.blurs
                &&& shadows.len() == node.effects@.len() + 1
                &&& forall|i: int|
                    0 <= i < node.effects@.len() ==> #[trigger] shadows[i] == node.effects@[i]
                &&& shadows.last() == (Shadow { kind: shadows.last().kind, ..shadow })
                &&& shadows.last().kind is Drop <==> kind is DropShadow
            }
            &&& kind is LayerBlur || kind is BackgroundBlur ==> {
                &&& after.effects == node.effects
                &&& blurs.len() == node.blurs@.len() + 1
                &&& forall|i: int|
                    0 <= i < node.blurs@.len() ==> #[trigger] blurs[i] == node.blurs@[i]
                &&& blurs.last().radius == radius
                &&& blurs.last().kind is Layer <==> kind is LayerBlur
            }
        }),
{
    crate::operations::lemma_find_is_content(doc, id);
    lemma_effect_steps(doc, id, operations);
    crate::inspector_laws::lemma_two_steps(doc.content(), operations);
}

/// An effect that is taken out is gone and the others keep their order; nothing else
/// changes.
pub proof fn lemma_effect_leaves(
    doc: Doc,
    id: NodeId,
    reference: EffectRef,
    operations: Seq<Operation>,
)
    requires
        doc.well_formed(),
        doc.content().nodes.dom().contains(id),
        crate::design_lists::effect_remove_outcome(doc, id, reference, operations),
    ensures
        crate::inspector_laws::changes_only(doc, id, operations),
        ({
            let node = doc.content().nodes[id];
            let after = crate::inspector_laws::afterwards(doc, operations).nodes[id];
            match reference {
                EffectRef::Shadow(index) => {
                    &&& after == (CanvasNode { effects: after.effects, ..node })
                    &&& index >= node.effects@.len() ==> after == node
                    &&& index < node.effects@.len() ==> after.effects@.len() == node.effects@.len()
                        - 1 && forall|i: int|
                        0 <= i < after.effects@.len() ==> #[trigger] after.effects@[i] == if i
                            < index {
                            node.effects@[i]
                        } else {
                            node.effects@[i + 1]
                        }
                },
                EffectRef::Blur(index) => {
                    &&& after == (CanvasNode { blurs: after.blurs, ..node })
                    &&& index >= node.blurs@.len() ==> after == node
                    &&& index < node.blurs@.len() ==> after.blurs@.len() == node.blurs@.len() - 1
                        && forall|i: int|
                        0 <= i < after.blurs@.len() ==> #[trigger] after.blurs@[i] == if i < index {
                            node.blurs@[i]
                        } else {
                            node.blurs@[i + 1]
                        }
                },
            }
        }),
{
    crate::operations::lemma_find_is_content(doc, id);
    lemma_effect_steps(doc, id, operations);
    crate::inspector_laws::lemma_two_steps(doc.content(), operations);
}

/// An edit of a shadow changes what is asked for of that shadow alone; a blur is at
/// least zero.
pub proof fn lemma_shadow_edit_lands(
    doc: Doc,
    id: NodeId,
    index: usize,
    property: EffectProperty,
    value: EffectValue,
    default_shadow: Shadow,
    r: Option<Vec<Operation>>,
)
    requires
        doc.well_formed(),
        doc.content().nodes.dom().contains(id),
        index < doc.content().nodes[id].effects@.len(),
        match (property, value) {
            (EffectProperty::ShadowColor, EffectValue::Color(_)) => true,
            (EffectProperty::ShowBehindNode, EffectValue::Bool(_)) => true,
            (EffectProperty::ShadowBlur | EffectProperty::Blur, EffectValue::Number(number))
            | (EffectProperty::ShadowSpread | EffectProperty::Spread, EffectValue::Number(number))
            | (EffectProperty::ShadowOffsetX | EffectProperty::OffsetX, EffectValue::Number(number))
            | (EffectProperty::ShadowOffsetY | EffectProperty::OffsetY, EffectValue::Number(number)) =>
                -0x7ff0_0000_0000_0000 < number.rank() < 0x7ff0_0000_0000_0000,
            _ => false,
        },
        crate::design_effects::effect_edit_outcome(
            doc,
            id,
            EffectRef::Shadow(index),
            property,
            value,
            default_shadow,
            r,
        ),
    ensures
        r matches Some(operations) && crate::inspector_laws::changes_only(doc, id, operations@) && {
            let node = doc.content().nodes[id];
            let after = crate::inspector_laws::afterwards(doc, operations@).nodes[id];
            let was = node.effects@[index as int];
            let now = after.effects@[index as int];
            &&& after == (CanvasNode { effects: after.effects, ..node })
            &&& after.effects@.len() == node.effects@.len()
            &&& forall|i: int|
                0 <= i < node.effects@.len() && i != index ==> #[trigger] after.effects@[i]
                    == node.effects@[i]
            &&& match (property, value) {
                (EffectProperty::ShadowColor, EffectValue::Color(color)) => now == (Shadow {
                    color: color,
                    ..was
                }),
                (EffectProperty::ShowBehindNode, EffectValue::Bool(show)) => now == (Shadow {
                    show_behind_node: show,
                    ..was
                }),
                (EffectProperty::ShadowBlur | EffectProperty::Blur, EffectValue::Number(number)) =>
                    crate::inspector_laws::takes(now.blur, number) && now == (Shadow {
                    blur: now.blur,
                    ..was
                }),
                (EffectProperty::ShadowSpread | EffectProperty::Spread, EffectValue::Number(number)) =>
                    now == (Shadow { spread: number, ..was }),
                (
                    EffectProperty::ShadowOffsetX | EffectProperty::OffsetX,
                    EffectValue::Number(number),
                ) => now == (Shadow { offset_x: number, ..was }),
                (
                    EffectProperty::ShadowOffsetY | EffectProperty::OffsetY,
                    EffectValue::Number(number),
                ) => now == (Shadow { offset_y: number, ..was }),
                _ => false,
            }
        },
{
    crate::operations::lemma_find_is_content(doc, id);
    crate::design_effects::lemma_shadow_takes(
        doc.content().nodes[id].effects@[index as int],
        property,
        value,
    );
    lemma_effect_steps(doc, id, r->0@);
    crate::inspector_laws::lemma_two_steps(doc.content(), r->0@);
}

/// A radius is that of the blur it is given to, at least zero; nothing else changes.
pub proof fn lemma_blur_edit_lands(
    doc: Doc,
    id: NodeId,
    index: usize,
    property: EffectProperty,
    number: Scalar,
    default_shadow: Shadow,
    r: Option<Vec<Operation>>,
)
    requires
        doc.well_formed(),
        doc.content().nodes.dom().contains(id),
        index < doc.content().nodes[id].blurs@.len(),
        property is BlurRadius || property is Blur,
        -0x7ff0_0000_0000_0000 < number.rank() < 0x7ff0_0000_0000_0000,
        crate::design_effects::effect_edit_outcome(
            doc,
            id,
            EffectRef::Blur(index),
            property,
            EffectValue::Number(number),
            default_shadow,
            r,
        ),
    ensures
        r matches Some(operations) && crate::inspector_laws::changes_only(doc, id, operations@) && {
            let node = doc.content().nodes[id];
            let after = crate::inspector_laws::afterwards(doc, operations@).nodes[id];
            &&& after == (CanvasNode { blurs: after.blurs, ..node })
            &&& after.blurs@.len() == node.blurs@.len()
            &&& forall|i: int|
                0 <= i < node.blurs@.len() && i != index ==> #[trigger] after.blurs@[i]
                    == node.blurs@[i]
            &&& after.blurs@[index as int].kind == node.blurs@[index as int].kind
            &&& crate::inspector_laws::takes(after.blurs@[index as int].radius, number)
        },
{
    crate::operations::lemma_find_is_content(doc, id);
    lemma_effect_steps(doc, id, r->0@);
    crate::inspector_laws::lemma_two_steps(doc.content(), r->0@);
}

/// An effect that changes its kind is of that kind. A shadow that stays a shadow, and a
/// blur that stays a blur, keeps its place and all else; one that crosses over joins
/// the end of the other list with its radius, and leaves its own.
pub proof fn lemma_kind_change_lands(
    doc: Doc,
    id: NodeId,
    reference: EffectRef,
    kind: EffectKind,
    default_shadow: Shadow,
    r: Option<Vec<Operation>>,
)
    requires
        doc.well_formed(),
        doc.content().nodes.dom().contains(id),
        !(kind is Unsupported),
        match reference {
            EffectRef::Shadow(index) => index < doc.content().nodes[id].effects@.len(),
            EffectRef::Blur(index) => index < doc.content().nodes[id].blurs@.len(),
        },
        crate::design_effects::kind_change_outcome(doc, id, reference, kind, default_shadow, r),
    ensures
        r matches Some(operations) && crate::inspector_laws::changes_only(doc, id, operations@) && {
            let node = doc.content().nodes[id];
            let after = crate::inspector_laws::afterwards(doc, operations@).nodes[id];
            let shadow = kind is DropShadow || kind is InnerShadow;
            &&& after == (CanvasNode { effects: after.effects, blurs: after.blurs, ..node })
            &&& match reference {
                EffectRef::Shadow(index) => if shadow {
                    &&& after.blurs == node.blurs
                    &&& after.effects@.len() == node.effects@.len()
                    &&& after.effects@[index as int] == (Shadow {
                        kind: after.effects@[index as int].kind,
                        ..node.effects@[index as int]
                    })
                    &&& after.effects@[index as int].kind is Drop <==> kind is DropShadow
                    &&& forall|i: int|
                        0 <= i < node.effects@.len() && i != index ==> #[trigger] after.effects@[i]
                            == node.effects@[i]
                } else {
                    &&& after.effects@ == node.effects@.remove(index as int)
                    &&& after.blurs@.len() == node.blurs@.len() + 1
                    &&& after.blurs@.drop_last() == node.blurs@
                    &&& after.blurs@.last().radius == node.effects@[index as int].blur
                    &&& after.blurs@.last().kind is Layer <==> kind is LayerBlur
                },
                EffectRef::Blur(index) => if shadow {
                    &&& after.blurs@ == node.blurs@.remove(index as int)
                    &&& after.effects@.len() == node.effects@.len() + 1
                    &&& after.effects@.drop_last() == node.effects@
                    &&& after.effects@.last() == (Shadow {
                        kind: after.effects@.last().kind,
                        blur: node.blurs@[index as int].radius,
                        ..default_shadow
                    })
                    &&& after.effects@.last().kind is Drop <==> kind is DropShadow
                } else {
                    &&& after.effects == node.effects
                    &&& after.blurs@.len() == node.blurs@.len()
                    &&& after.blurs@[index as int].radius == node.blurs@[index as int].radius
                    &&& after.blurs@[index as int].kind is Layer <==> kind is LayerBlur
                    &&& forall|i: int|
                        0 <= i < node.blurs@.len() && i != index ==> #[trigger] after.blurs@[i]
                            == node.blurs@[i]
                },
            }
        },
{
    crate::operations::lemma_find_is_content(doc, id);
    lemma_effect_steps(doc, id, r->0@);
    crate::inspector_laws::lemma_two_steps(doc.content(), r->0@);
}

/// Rows of effects show what the layer has: shadows first, each under its own kind
/// with its own numbers, then blurs.
pub proof fn lemma_effect_rows_show(
    effects: Seq<crate::design_effects::DesignEffect>,
    node: CanvasNode,
    i: int,
)
    requires
        crate::design_effects::effect_rows(effects, node),
        0 <= i < node.effects@.len() + node.blurs@.len(),
    ensures
        effects.len() == node.effects@.len() + node.blurs@.len(),
        i < node.effects@.len() ==> {
            let shadow = node.effects@[i];
            &&& effects[i].kind is DropShadow <==> shadow.kind is Drop
            &&& effects[i].kind is InnerShadow <==> shadow.kind is Inner
            &&& effects[i].radius == shadow.blur
            &&& effects[i].shadow matches Some(shown) && shown.color == shadow.color
                && shown.spread == shadow.spread && shown.offset_x == shadow.offset_x
                && shown.offset_y == shadow.offset_y && (shown.show_behind_node
                <==> shadow.show_behind_node && shadow.kind is Drop)
        },
        i >= node.effects@.len() ==> {
            let blur = node.blurs@[i - node.effects@.len()];
            &&& effects[i].kind is LayerBlur <==> blur.kind is Layer
            &&& effects[i].kind is BackgroundBlur <==> blur.kind is Background
            &&& effects[i].radius == blur.radius
            &&& effects[i].shadow is None
        },
{
    let n = node.effects@.len() as int;
    if i < n {
        assert(crate::design_effects::shows_shadow(effects[i], node.effects@[i], i as usize));
    } else {
        assert(crate::design_effects::shows_blur(
            effects[n + (i - n)],
            node.blurs@[i - n],
            (i - n) as usize,
        ));
    }
}

} // verus!
