//! Laws: what is shown of a layer, said of the layer itself.

use vstd::prelude::*;

use crate::design_layout_view::{DesignTypography, LayoutSection, TypographySnapshot};
use crate::design_media::{Playback, Upload};
use crate::design_node::{
    BoundValue, CapabilityFlags, PanelSection, ParentLayout, ShapeGeometry, StateValue,
    VariableName,
};
use crate::design_paint_view::{DesignPaint, PaintSnapshot, ShownPayload, TurnFacts};
use crate::design_values::{
    DesignBlendMode, DesignKind, DesignProperty, DesignStrokeCap, SizingMode,
};
use crate::document::{
    AutoLayout, Binding, BoundProp, CanvasNode, CounterAlign, Doc, NodeData, ParametricShape,
};
use crate::ids::NodeId;
use crate::instance_text::{
    CloneProbe, ExpandedNode, OverrideModel, SetInstanceOverride, ValueModel,
};
use crate::paint::{BlendMode, Color, Fill, StrokeCap};
use crate::panel::{EmptyItem, OpenDocument};
use crate::scalar::Scalar;

verus! {

proof fn lemma_one_longer<T>(list: Seq<T>, x: T)
    ensures
        list.push(x).contains(x),
        forall|y: T| #[trigger] list.push(x).contains(y) <==> y == x || list.contains(y),
{
    assert(list.push(x)[list.len() as int] == x);
    assert forall|y: T| #[trigger] list.push(x).contains(y) <==> y == x || list.contains(y) by {
        if list.contains(y) {
            let i = choose|i: int| 0 <= i < list.len() && list[i] == y;
            assert(list.push(x)[i] == y);
        }
    }
}

proof fn lemma_without_last<T>(list: Seq<T>)
    requires
        list.len() > 0,
    ensures
        forall|y: T| #[trigger] list.contains(y) <==> y == list.last() || list.drop_last().contains(y),
{
    lemma_one_longer(list.drop_last(), list.last());
    assert(list.drop_last().push(list.last()) =~= list);
}

// ---------------------------------------------------------------------------
// Layout
// ---------------------------------------------------------------------------

/// A layout is shown as it is: the gap is the one along its axis, the gap between lines
/// shows where it wraps and does not spread them, and every other setting shows under
/// its own name.
pub proof fn lemma_layout_shown(auto: AutoLayout, own: Option<AutoLayout>)
    ensures
        ({
            let view = crate::design_layout_view::auto_shown(auto, own);
            let across = auto.mode is Horizontal;
            &&& view.mode == auto.mode
            &&& view.gap == if across {
                auto.gap_h
            } else {
                auto.gap_v
            }
            &&& view.counter_axis_gap is Some <==> auto.wrap && !(own is Some
                && own->0.counter_auto_spacing)
            &&& view.counter_axis_gap is Some ==> view.counter_axis_gap->0 == if across {
                auto.gap_v
            } else {
                auto.gap_h
            }
            &&& view.wrap == auto.wrap
            &&& view.item_spacing is Auto <==> auto.primary_align is SpaceBetween
                || auto.primary_align is SpaceEvenly
            &&& view.stacking is FirstOnTop <==> auto.reverse_z
            &&& view.baseline is Baseline <==> auto.counter_align is Baseline
            &&& own is Some ==> view.padding == own->0.padding && view.include_strokes == Some(
                own->0.include_strokes,
            )
            &&& own is Some ==> (view.align_content is Some && (
            view.align_content->0 is SpaceBetween <==> own->0.counter_auto_spacing))
            &&& own is None ==> view.include_strokes is None && view.align_content is None
            &&& view.min_width == auto.min_width
            &&& view.max_width == auto.max_width
            &&& view.min_height == auto.min_height
            &&& view.max_height == auto.max_height
            &&& across ==> (view.alignment_x == 1 <==> auto.primary_align is Center) && (
            view.alignment_x == 2 <==> auto.primary_align is End) && (view.alignment_y == 1
                <==> auto.counter_align is Center) && (view.alignment_y == 2
                <==> auto.counter_align is End)
            &&& !across ==> (view.alignment_y == 1 <==> auto.primary_align is Center) && (
            view.alignment_y == 2 <==> auto.primary_align is End) && (view.alignment_x == 1
                <==> auto.counter_align is Center) && (view.alignment_x == 2
                <==> auto.counter_align is End)
        }),
{
}

/// A layer among the children of a layout is shown to fill an axis exactly where it
/// grows along it or stretches across it, unless it is a text that fits itself there;
/// else it is shown as it sizes itself.
pub proof fn lemma_sizing_shown(doc: Doc, node: CanvasNode, section: LayoutSection, above: AutoLayout)
    requires
        crate::design_layout_view::above_of(doc, node) == Some(above),
        !(*node.data is Text),
    ensures
        crate::design_layout_view::layout_shown(doc, node, Some(section), true) matches Some(shown)
            && {
            let says = crate::inspector_laws::says(node);
            let grows = !says.grow.nan() && says.grow.rank() > 0;
            let stretches = says.align_self == Some(CounterAlign::Stretch);
            let across = above.mode is Horizontal;
            &&& shown.horizontal_sizing == Some(SizingMode::Fill) <==> if across {
                grows
            } else {
                stretches
            }
            &&& shown.vertical_sizing == Some(SizingMode::Fill) <==> if across {
                stretches
            } else {
                grows
            }
            &&& shown.clip_content == Some(section.clip)
            &&& shown.item matches Some(item) && (item.positioning is Absolute <==> says.absolute)
                && (item.align_self is Stretch <==> stretches) && item.grow == says.grow
        },
{
}

/// A frame that is placed by no layout is shown as it sizes itself: along its axis by
/// the one sizing, across it by the other.
pub proof fn lemma_own_sizing_shown(doc: Doc, node: CanvasNode, clip: bool, auto: AutoLayout)
    requires
        !(*node.data is Text),
    ensures
        crate::design_layout_view::layout_shown(
            doc,
            node,
            Some(LayoutSection { clip: clip, auto: Some(auto) }),
            false,
        ) matches Some(shown) && {
            let across = auto.mode is Horizontal;
            &&& shown.horizontal_sizing == Some(SizingMode::Hug) <==> if across {
                auto.primary_sizing is Hug
            } else {
                auto.counter_sizing is Hug
            }
            &&& shown.vertical_sizing == Some(SizingMode::Hug) <==> if across {
                auto.counter_sizing is Hug
            } else {
                auto.primary_sizing is Hug
            }
            &&& shown.item is None
            &&& shown.clip_content == Some(clip)
        },
{
}

/// What a layer lies in: on the canvas, in a frame without a layout, or in one with a
/// layout, in its flow or out of it.
pub proof fn lemma_parent_shown(doc: Doc, id: NodeId)
    requires
        doc.well_formed(),
        doc.content().nodes.dom().contains(id),
    ensures
        ({
            let content = doc.content();
            let shown = crate::design_node::parent_layout_of(doc, id);
            let node = content.nodes[id];
            let held = node.parent is Some && content.nodes.dom().contains(node.parent->0);
            &&& shown is Canvas <==> !held
            &&& shown is Auto <==> crate::inspector_laws::layout_around(content, id) is Some
            &&& shown is Freeform <==> held && crate::inspector_laws::layout_around(
                content,
                id,
            ) is None
            &&& shown matches ParentLayout::Auto { direction, wraps, in_flow } ==> {
                let layout = crate::inspector_laws::layout_around(content, id)->0;
                &&& direction == layout.mode
                &&& wraps == layout.wrap
                &&& in_flow == !crate::inspector_laws::says(node).absolute
            }
        }),
{
    crate::operations::lemma_find_is_content(doc, id);
    if let Some(parent) = doc.content().nodes[id].parent {
        crate::operations::lemma_find_is_content(doc, parent);
    }
}

// ---------------------------------------------------------------------------
// Text and fonts
// ---------------------------------------------------------------------------

/// A text's typography is shown as it is; an underlined text shows as underlined even
/// where it is struck through as well.
pub proof fn lemma_typography_shown(snapshot: TypographySnapshot, shown: DesignTypography)
    requires
        crate::design_layout_view::typography_shown(snapshot, shown),
    ensures
        shown.decoration is Underline <==> snapshot.underline,
        shown.decoration is Strikethrough <==> snapshot.strikethrough && !snapshot.underline,
        shown.decoration is Plain <==> !snapshot.strikethrough && !snapshot.underline,
        shown.family@ == snapshot.font_family@,
        shown.weight == snapshot.weight && shown.size == snapshot.size_px,
        shown.line_height == snapshot.line_height,
        shown.letter_spacing_pixels == snapshot.letter_spacing,
        shown.horizontal_alignment == snapshot.align,
        shown.vertical_alignment == snapshot.vertical_align,
        shown.resize == snapshot.auto_resize,
        shown.style@[0] == if snapshot.italic {
            'I'
        } else {
            'R'
        },
{
    reveal_strlit("Italic");
    reveal_strlit("Regular");
}

proof fn lemma_before_order(a: Seq<char>, b: Seq<char>, c: Seq<char>)
    ensures
        !crate::design_layout_view::precedes(a, a),
        crate::design_layout_view::precedes(a, b) ==> !crate::design_layout_view::precedes(b, a),
        !crate::design_layout_view::precedes(a, b) && !crate::design_layout_view::precedes(b, c)
            ==> !crate::design_layout_view::precedes(a, c),
    decreases a.len() + b.len() + c.len(),
{
    if a.len() > 0 {
        let x = if b.len() > 0 {
            b.skip(1)
        } else {
            b
        };
        let y = if c.len() > 0 {
            c.skip(1)
        } else {
            c
        };
        lemma_before_order(a.skip(1), x, y);
    } else if b.len() > 0 {
        lemma_before_order(b.skip(1), a, a);
    }
}

/// The names stand in order, letter case aside.
pub open spec fn in_order(names: Seq<Seq<char>>) -> bool {
    forall|i: int, j: int|
        0 <= i < j < names.len() ==> !crate::design_layout_view::precedes(
            crate::text_search::lowercase_text(#[trigger] names[j]),
            crate::text_search::lowercase_text(#[trigger] names[i]),
        )
}

/// No two names are one, letter case aside.
pub open spec fn keys_differ(names: Seq<Seq<char>>) -> bool {
    forall|i: int, j: int|
        0 <= i < j < names.len() ==> crate::text_search::lowercase_text(#[trigger] names[i])
            != crate::text_search::lowercase_text(#[trigger] names[j])
}

proof fn lemma_inserted_differs(names: Seq<Seq<char>>, name: Seq<char>)
    requires
        keys_differ(names),
        !crate::design_layout_view::has_key(names, name),
    ensures
        keys_differ(crate::design_layout_view::name_inserted(names, name)),
        forall|x: Seq<char>| #[trigger]
            crate::design_layout_view::name_inserted(names, name).contains(x) ==> x == name
                || names.contains(x),
    decreases names.len(),
{
    let all = crate::design_layout_view::name_inserted(names, name);
    assert forall|i: int| 0 <= i < names.len() implies crate::text_search::lowercase_text(
        #[trigger] names[i],
    ) != crate::text_search::lowercase_text(name) by {
        assert(crate::design_layout_view::key_of(names[i])
            != crate::design_layout_view::key_of(name));
    }
    if names.len() == 0 || !crate::design_layout_view::precedes(
        crate::design_layout_view::key_of(name),
        crate::design_layout_view::key_of(names.last()),
    ) {
        lemma_one_longer(names, name);
        assert(all =~= names.push(name));
    } else {
        let rest = names.drop_last();
        assert forall|i: int| 0 <= i < rest.len() implies crate::design_layout_view::key_of(
            #[trigger] rest[i],
        ) != crate::design_layout_view::key_of(name) by {
            assert(rest[i] == names[i]);
        }
        lemma_inserted_differs(rest, name);
        let inner = crate::design_layout_view::name_inserted(rest, name);
        lemma_one_longer(inner, names.last());
        lemma_without_last(names);
        assert(all =~= inner.push(names.last()));
        assert forall|i: int, j: int|
            0 <= i < j < all.len() implies crate::text_search::lowercase_text(#[trigger] all[i])
            != crate::text_search::lowercase_text(#[trigger] all[j]) by {
            if j == inner.len() {
                assert(inner.contains(inner[i]));
                assert(names[names.len() - 1] == names.last());
                if inner[i] != name {
                    let m = choose|m: int| 0 <= m < rest.len() && rest[m] == inner[i];
                    assert(names[m] == inner[i]);
                }
            } else {
                assert(all[i] == inner[i] && all[j] == inner[j]);
            }
        }
    }
}

proof fn lemma_name_inserted(names: Seq<Seq<char>>, name: Seq<char>)
    requires
        in_order(names),
    ensures
        ({
            let all = crate::design_layout_view::name_inserted(names, name);
            &&& in_order(all)
            &&& all.len() == names.len() + 1
            &&& forall|x: Seq<char>| #[trigger] all.contains(x) <==> x == name || names.contains(x)
        }),
    decreases names.len(),
{
    let all = crate::design_layout_view::name_inserted(names, name);
    let key = crate::text_search::lowercase_text(name);
    if names.len() == 0 || !crate::design_layout_view::precedes(
        key,
        crate::text_search::lowercase_text(names.last()),
    ) {
        lemma_one_longer(names, name);
        assert(all =~= names.push(name));
        assert forall|i: int, j: int| 0 <= i < j < all.len() implies !crate::design_layout_view::precedes(
            crate::text_search::lowercase_text(#[trigger] all[j]),
            crate::text_search::lowercase_text(#[trigger] all[i]),
        ) by {
            if j == names.len() && i < names.len() - 1 {
                lemma_before_order(
                    key,
                    crate::text_search::lowercase_text(names.last()),
                    crate::text_search::lowercase_text(names[i]),
                );
                assert(!crate::design_layout_view::precedes(
                    crate::text_search::lowercase_text(names[names.len() - 1]),
                    crate::text_search::lowercase_text(names[i]),
                ));
            }
        }
    } else {
        let rest = names.drop_last();
        assert forall|i: int, j: int| 0 <= i < j < rest.len() implies !crate::design_layout_view::precedes(
            crate::text_search::lowercase_text(#[trigger] rest[j]),
            crate::text_search::lowercase_text(#[trigger] rest[i]),
        ) by {
            assert(rest[i] == names[i] && rest[j] == names[j]);
        }
        lemma_name_inserted(rest, name);
        let inner = crate::design_layout_view::name_inserted(rest, name);
        lemma_one_longer(inner, names.last());
        lemma_without_last(names);
        assert(all =~= inner.push(names.last()));
        assert forall|i: int, j: int| 0 <= i < j < all.len() implies !crate::design_layout_view::precedes(
            crate::text_search::lowercase_text(#[trigger] all[j]),
            crate::text_search::lowercase_text(#[trigger] all[i]),
        ) by {
            if j == inner.len() {
                assert(inner.contains(inner[i]));
                if inner[i] == name {
                    lemma_before_order(
                        key,
                        crate::text_search::lowercase_text(names.last()),
                        key,
                    );
                } else {
                    let m = choose|m: int| 0 <= m < rest.len() && rest[m] == inner[i];
                    assert(names[m] == inner[i]);
                    assert(names[names.len() - 1] == names.last());
                }
            } else {
                assert(all[i] == inner[i] && all[j] == inner[j]);
            }
        }
    }
}

/// The catalog of families: it stands in the order of the names, letter case aside,
/// holds no name twice, letter case aside, and every family that was found with a name
/// that is not hidden is in it, be it under another case.
pub proof fn lemma_catalog_in_order(names: Seq<Seq<char>>)
    ensures
        in_order(crate::design_layout_view::catalog(names)),
        keys_differ(crate::design_layout_view::catalog(names)),
        forall|i: int|
            0 <= i < names.len() && (#[trigger] names[i]).len() > 0 && names[i][0] != '.'
                ==> crate::design_layout_view::has_key(
                crate::design_layout_view::catalog(names),
                names[i],
            ),
    decreases names.len(),
{
    if names.len() > 0 {
        let front = names.drop_last();
        lemma_catalog_in_order(front);
        let rest = crate::design_layout_view::catalog(front);
        let all = crate::design_layout_view::catalog(names);
        lemma_name_inserted(rest, names.last());
        if all != rest {
            lemma_inserted_differs(rest, names.last());
        }
        assert forall|i: int|
            0 <= i < names.len() && (#[trigger] names[i]).len() > 0 && names[i][0]
                != '.' implies crate::design_layout_view::has_key(all, names[i]) by {
            if all == rest {
                if i < front.len() {
                    assert(front[i] == names[i]);
                }
            } else if i < front.len() {
                assert(front[i] == names[i]);
                let k = choose|k: int|
                    0 <= k < rest.len() && crate::design_layout_view::key_of(#[trigger] rest[k])
                        == crate::design_layout_view::key_of(names[i]);
                assert(rest.contains(rest[k]));
                assert(all.contains(rest[k]));
                let m = choose|m: int| 0 <= m < all.len() && all[m] == rest[k];
                assert(crate::design_layout_view::key_of(all[m])
                    == crate::design_layout_view::key_of(names[i]));
            } else {
                assert(all.contains(names.last()));
                let m = choose|m: int| 0 <= m < all.len() && all[m] == names.last();
                assert(crate::design_layout_view::key_of(all[m])
                    == crate::design_layout_view::key_of(names[i]));
            }
        }
    }
}

// ---------------------------------------------------------------------------
// Paints and strokes
// ---------------------------------------------------------------------------

/// A cap that the inspector sets is the one it shows; an arrow is kept as no cap.
pub proof fn lemma_cap_round_trip(cap: DesignStrokeCap, stored: StrokeCap)
    ensures
        crate::design_paint_view::cap_shown(crate::design_properties::cap_stored(cap)) == if
            cap is Arrow {
            DesignStrokeCap::Plain
        } else {
            cap
        },
        crate::design_paint_view::cap_shown(stored) is Round <==> stored is Round,
        crate::design_paint_view::cap_shown(stored) is Square <==> stored is Square,
        crate::design_paint_view::cap_shown(stored) is Plain <==> stored is Butt,
{
}

/// A paint shows what it is: a pattern, a picture, a film or a shader as that, with its
/// own source, and a plain or gradient paint as its snapshot says. A picture that is
/// stretched, or turned other than by quarters, can be looked at only.
pub proof fn lemma_paint_shown(
    node: Seq<char>,
    is_stroke: bool,
    index: usize,
    snapshot: PaintSnapshot,
    fill: Option<Fill>,
    turn: TurnFacts,
    paint: DesignPaint,
)
    requires
        crate::design_paint_view::paint_shown(
            node,
            is_stroke,
            index,
            snapshot,
            fill,
            turn,
            paint,
        ),
    ensures
        paint.visible == snapshot.visible,
        snapshot.blend is None ==> paint.blend is Normal,
        snapshot.blend is Some ==> crate::inspector_laws::same_blend(
            paint.blend,
            snapshot.blend->0,
        ),
        fill matches Some(Fill::Pattern { pattern, .. }) ==> paint.payload
            == ShownPayload::Pattern(pattern),
        fill matches Some(Fill::Image { asset, mode, crop, adjust, .. }) ==> (
        paint.payload matches ShownPayload::Image { asset: shown, filters, .. } && shown == asset
            && filters == adjust) && (mode is Stretch && crop is None ==> paint.read_only),
        fill matches Some(Fill::Video { video, .. }) ==> (paint.payload matches ShownPayload::Video {
            asset,
            filters,
            ..
        } && asset == video.asset && filters == video.adjust),
        fill matches Some(Fill::Shader { shader, .. }) ==> (
        paint.payload matches ShownPayload::Shader { shader_id, name, .. } && shader_id
            == shader.shader_id && name == shader.name) && !paint.read_only,
        fill is None && snapshot.kind == Some(crate::design_paint_view::SnapshotKind::Solid)
            && snapshot.color is Some ==> paint.payload == ShownPayload::Solid(snapshot.color->0)
            && !paint.read_only,
        fill is None && snapshot.kind == Some(crate::design_paint_view::SnapshotKind::Gradient)
            && snapshot.gradient is Some ==> paint.payload == ShownPayload::Gradient(
            snapshot.gradient->0,
        ) && !paint.read_only,
{
    let opacity = choose|opacity: crate::design_paint_view::ShownOpacity| #[trigger]
        crate::design_paint_view::paint_body(
            node,
            is_stroke,
            index,
            snapshot,
            fill,
            turn,
            paint.payload,
            opacity,
            paint.read_only,
        );
    assert(crate::design_paint_view::paint_body(
        node,
        is_stroke,
        index,
        snapshot,
        fill,
        turn,
        paint.payload,
        opacity,
        paint.read_only,
    ));
    if let Some(blend) = snapshot.blend {
        crate::inspector_laws::lemma_blend_names(blend, DesignBlendMode::Normal);
    }
}

/// The settings of strokes that are shown are those of the first.
pub proof fn lemma_stroke_shown(
    node: Seq<char>,
    kind: DesignKind,
    data: NodeData,
    snapshots: Seq<PaintSnapshot>,
    turns: Seq<TurnFacts>,
    r: Option<crate::design_paint_view::DesignStroke>,
)
    requires
        crate::design_paint_view::stroke_shown(node, kind, data, snapshots, turns, r),
    ensures
        r is Some <==> crate::inspector_laws::strokes_in(data).len() > 0,
        r matches Some(shown) ==> {
            let first = crate::inspector_laws::strokes_in(data)[0];
            &&& shown.weight == first.width
            &&& shown.sides == first.per_side
            &&& shown.align == first.align
            &&& shown.join == first.join
            &&& shown.dashes == first.dash
            &&& shown.miter_limit == first.miter_limit
            &&& shown.paints@.len() == snapshots.len()
        },
{
}

/// A layer that gathers others shows as passing through exactly where it blends
/// normally and does not isolate them; any other mode shows under its own name.
pub proof fn lemma_blend_shown(doc: Doc, node: CanvasNode)
    ensures
        ({
            let kind = crate::design_values::design_kind_of(doc, node.id, *node.data);
            let shown = crate::design_node::blend_mode_shown(kind, node);
            &&& shown is PassThrough <==> *node.data is Group && node.blend_mode is Normal
                && !node.flags.isolated_blend
            &&& !(shown is PassThrough) ==> crate::inspector_laws::same_blend(
                shown,
                node.blend_mode,
            )
        }),
{
    crate::inspector_laws::lemma_blend_names(node.blend_mode, DesignBlendMode::Normal);
}

/// The shape that is shown is the one that the layer was drawn as, with the points it
/// has as long as they are between three and sixty.
pub proof fn lemma_shape_shown(data: NodeData)
    ensures
        ({
            let shown = crate::design_node::geometry_shown(data);
            &&& shown matches ShapeGeometry::Polygon { count } ==> 3 <= count <= 60
            &&& shown matches ShapeGeometry::Star { count, .. } ==> 3 <= count <= 60
            &&& data matches NodeData::Vector(vector) ==> match vector.parametric {
                Some(ParametricShape::Polygon { points }) => shown matches ShapeGeometry::Polygon {
                    count,
                } && (3 <= points <= 60 ==> count == points),
                Some(ParametricShape::Star { points, inner_ratio }) => shown matches
                    ShapeGeometry::Star { count, inner_ratio: inner } && inner == inner_ratio && (3
                    <= points <= 60 ==> count == points),
                Some(ParametricShape::Arc { start_rad, sweep_rad, inner_ratio }) => shown
                    == (ShapeGeometry::Ellipse { start_rad, sweep_rad, inner_ratio }),
                None => shown is Plain,
            }
            &&& data matches NodeData::Boolean(boolean) ==> shown == ShapeGeometry::Boolean(
                boolean.op,
            )
            &&& !(data is Vector || data is Boolean) ==> shown is Plain
        }),
{
}

/// What a layer offers to edit: only groups lay out and clip, only outlines, groups and
/// texts are filled, only outlines and groups are stroked, and nothing that is not
/// wired is offered.
pub proof fn lemma_offers_gated(doc: Doc, node: CanvasNode, preset: CapabilityFlags)
    ensures
        ({
            let kind = crate::design_values::design_kind_of(doc, node.id, *node.data);
            let flags = crate::design_node::gated_flags(preset, kind, *node.data);
            let group = *node.data is Group;
            &&& flags.auto_layout_container <==> group
            &&& flags.clip_content <==> group
            &&& flags.pass_through_blend <==> group
            &&& flags.fill ==> preset.fill && (group || *node.data is Vector || *node.data is Text)
            &&& flags.stroke ==> preset.stroke && (group || *node.data is Vector)
            &&& preset.fill && (group || *node.data is Vector || *node.data is Text) ==> flags.fill
            &&& preset.stroke && (group || *node.data is Vector) ==> flags.stroke
            &&& !flags.aspect_ratio_lock && !flags.constraints && !flags.resize_to_fit
                && !flags.grid_auto_layout && !flags.layout_guides && !flags.arrange
            &&& flags.transforms
        }),
{
}

proof fn lemma_kept_sections(sections: Seq<PanelSection>, fill: bool, stroke: bool)
    ensures
        forall|section: PanelSection| #[trigger]
            crate::design_node::kept_sections(sections, fill, stroke).contains(section)
                <==> sections.contains(section) && !(section is LayoutGrid) && !(
            section is Selection) && (section is Fill ==> fill) && (section is Stroke ==> stroke),
    decreases sections.len(),
{
    if sections.len() > 0 {
        lemma_kept_sections(sections.drop_last(), fill, stroke);
        lemma_without_last(sections);
        lemma_one_longer(
            crate::design_node::kept_sections(sections.drop_last(), fill, stroke),
            sections.last(),
        );
    }
}

/// The sections that a layer has: those of its kind, without the guides and the colors of
/// a selection; fills and strokes where it can have them; and that of masks for a mask.
pub proof fn lemma_sections_gated(
    preset: Seq<PanelSection>,
    flags: CapabilityFlags,
    kind: DesignKind,
    is_mask: bool,
    section: PanelSection,
)
    requires
        !(kind is Other),
    ensures
        crate::design_node::gated_sections(preset, flags, kind, is_mask).contains(section) <==> {
            ||| preset.contains(section) && !(section is LayoutGrid) && !(section is Selection) && (
            section is Fill ==> flags.fill) && (section is Stroke ==> flags.stroke)
            ||| section is Mask && is_mask
        },
{
    let kept = crate::design_node::kept_sections(preset, flags.fill, flags.stroke);
    lemma_kept_sections(preset, flags.fill, flags.stroke);
    lemma_one_longer(kept, PanelSection::Mask);
}

// ---------------------------------------------------------------------------
// Variables
// ---------------------------------------------------------------------------

/// A property that a variable drives shows that variable and the value that the layer
/// has: an opacity its opacity, and a visibility whether it is not hidden.
pub proof fn lemma_bound_shown(node: CanvasNode, binding: Binding, names: Seq<VariableName>)
    ensures
        match binding.prop {
            BoundProp::Opacity | BoundProp::Visible | BoundProp::CornerRadius =>
                crate::design_node::bound_state(node, binding, names) matches Some(state) && (
            state.value matches StateValue::Bound { variable, resolved, .. } && variable
                == binding.variable && match binding.prop {
                BoundProp::Opacity => state.property is Opacity && resolved == BoundValue::Opacity(
                    node.opacity,
                ),
                BoundProp::Visible => state.property is Visible && resolved == BoundValue::Visible(
                    !node.flags.hidden,
                ),
                _ => state.property is CornerRadius,
            }),
            _ => crate::design_node::bound_state(node, binding, names) is None,
        },
{
}

/// Only what can be driven by a variable is detached from one: opacity, visibility and
/// the radius of the corners, each under its own name.
pub proof fn lemma_bound_props_named(property: DesignProperty)
    ensures
        ({
            let prop = crate::design_lists::bound_prop_of(property);
            &&& prop == Some(BoundProp::Opacity) <==> property is Opacity
            &&& prop == Some(BoundProp::Visible) <==> property is Visible
            &&& prop == Some(BoundProp::CornerRadius) <==> property is CornerRadius
            &&& prop is None <==> !(property is Opacity || property is Visible
                || property is CornerRadius)
        }),
{
}

// ---------------------------------------------------------------------------
// Texts inside instances
// ---------------------------------------------------------------------------

/// The point lies in the box, edges included.
pub open spec fn inside(
    x: Scalar,
    y: Scalar,
    width: Scalar,
    height: Scalar,
) -> bool {
    &&& !x.nan() && !y.nan() && !width.nan() && !height.nan()
    &&& 0 <= x.rank() <= width.rank()
    &&& 0 <= y.rank() <= height.rank()
}

/// The copy is a text under the point that can be reached.
pub open spec fn under_point(
    expanded: Seq<ExpandedNode>,
    probes: Seq<CloneProbe>,
    at: int,
) -> bool {
    *expanded[at].node.data matches NodeData::Text(text) && crate::instance_text::painted(
        expanded,
        at,
    ) && probes[at].world.finite() && inside(
        probes[at].local.x,
        probes[at].local.y,
        text.local_size.width,
        text.local_size.height,
    )
}

/// A click edits the topmost painted text under the point: no later copy is one, and
/// where there is no target no copy is.
pub proof fn lemma_target_is_topmost(
    expanded: Seq<ExpandedNode>,
    probes: Seq<CloneProbe>,
    n: int,
)
    requires
        0 <= n <= expanded.len(),
    ensures
        match crate::instance_text::topmost_hit(expanded, probes, n) {
            Some(at) => 0 <= at < n && under_point(expanded, probes, at) && forall|later: int|
                at < later < n ==> !(#[trigger] under_point(expanded, probes, later)),
            None => forall|any: int|
                0 <= any < n ==> !(#[trigger] under_point(expanded, probes, any)),
        },
    decreases n,
{
    if n > 0 {
        lemma_target_is_topmost(expanded, probes, n - 1);
        assert(crate::instance_text::text_hit(expanded, probes, n - 1) == under_point(
            expanded,
            probes,
            n - 1,
        ));
    }
}

/// The copy itself shows: it is not hidden, and its opacity is above zero or no number.
pub open spec fn shows(node: CanvasNode) -> bool {
    !node.flags.hidden && (node.opacity.nan() || node.opacity.rank() > 0)
}

/// The places lead upwards from a copy, each to the copy above.
pub open spec fn climbs(expanded: Seq<ExpandedNode>, at: int, places: Seq<int>) -> bool {
    &&& places.len() > 0
    &&& places[0] == at
    &&& forall|i: int, j: int|
        0 <= i && j == i + 1 && j < places.len() ==> crate::instance_text::place_above(
            expanded,
            #[trigger] places[i],
        ) == Some(#[trigger] places[j])
}

/// A copy is painted exactly where it shows and every copy above it does.
pub proof fn lemma_painted_all_the_way_up(expanded: Seq<ExpandedNode>, at: int)
    requires
        crate::instance_text::parents_first(expanded),
        0 <= at < expanded.len(),
    ensures
        crate::instance_text::painted(expanded, at) <==> forall|places: Seq<int>| #[trigger]
            climbs(expanded, at, places) ==> shows(expanded[places.last()].node),
    decreases at,
{
    let above = crate::instance_text::place_above(expanded, at);
    lemma_place_in_list(expanded, at);
    if let Some(higher) = above {
        assert(higher < at);
        lemma_painted_all_the_way_up(expanded, higher);
    }
    if crate::instance_text::painted(expanded, at) {
        assert forall|places: Seq<int>| #[trigger] climbs(expanded, at, places) implies shows(
            expanded[places.last()].node,
        ) by {
            if places.len() > 1 {
                let rest = places.drop_first();
                assert(crate::instance_text::place_above(expanded, places[0]) == Some(places[1]));
                assert(climbs(expanded, places[1], rest));
                assert(rest.last() == places.last());
            }
        }
    } else {
        if !shows(expanded[at].node) {
            assert(climbs(expanded, at, seq![at]));
            assert(seq![at].last() == at);
        } else {
            let higher = above->0;
            let rest = choose|rest: Seq<int>| #[trigger]
                climbs(expanded, higher, rest) && !shows(expanded[rest.last()].node);
            let places = seq![at] + rest;
            assert(climbs(expanded, at, places));
            assert(places.last() == rest.last());
        }
    }
}

proof fn lemma_place_in_list(expanded: Seq<ExpandedNode>, at: int)
    ensures
        crate::instance_text::place_above(expanded, at) matches Some(above) ==> 0 <= above
            < expanded.len(),
{
    if let Some(parent) = expanded[at].node.parent {
        lemma_clone_in_list(expanded, parent);
    }
}

proof fn lemma_clone_in_list(expanded: Seq<ExpandedNode>, id: NodeId)
    ensures
        crate::instance_text::clone_place(expanded, id) matches Some(place) ==> 0 <= place
            < expanded.len() && expanded[place].node.id == id,
    decreases expanded.len(),
{
    if expanded.len() > 0 {
        lemma_clone_in_list(expanded.drop_last(), id);
    }
}

proof fn lemma_slot_holds(list: Seq<OverrideModel>, path: Seq<NodeId>, prop: BoundProp)
    ensures
        crate::instance_text::slot_of(list, path, prop) matches Some(at) ==> 0 <= at < list.len()
            && list[at].path == path && list[at].prop == prop,
    decreases list.len(),
{
    if list.len() > 0 {
        lemma_slot_holds(list.drop_last(), path, prop);
    }
}

proof fn lemma_upserted_holds(list: Seq<OverrideModel>, item: OverrideModel)
    ensures
        crate::instance_text::upserted(list, item).contains(item),
        forall|other: OverrideModel|
            (other.path != item.path || other.prop != item.prop) && #[trigger] list.contains(other)
                ==> crate::instance_text::upserted(list, item).contains(other),
{
    let all = crate::instance_text::upserted(list, item);
    lemma_slot_holds(list, item.path, item.prop);
    match crate::instance_text::slot_of(list, item.path, item.prop) {
        Some(at) => {
            assert(all[at] == item);
        },
        None => {
            assert(all[list.len() as int] == item);
        },
    }
    assert forall|other: OverrideModel|
        (other.path != item.path || other.prop != item.prop) && #[trigger] list.contains(
            other,
        ) implies all.contains(other) by {
        let i = choose|i: int| 0 <= i < list.len() && list[i] == other;
        crate::instance_text::lemma_upsert_keeps_others(list, item, i);
        assert(all[i] == other);
    }
}

/// An edit of a text inside an instance, once it is committed: the instance holds the
/// content and the color that were given, at the path of the text, and keeps every
/// override of another path or property.
pub proof fn lemma_commit_sets_text(
    operations: Seq<SetInstanceOverride>,
    id: NodeId,
    base: Seq<OverrideModel>,
    path: Seq<NodeId>,
    content: Option<Seq<char>>,
    color: Option<Color>,
)
    requires
        crate::instance_text::records_upserts(
            operations,
            id,
            base,
            crate::instance_text::edit_models(path, content, color),
        ),
    ensures
        ({
            let after = crate::instance_text::slots_changed(base, operations);
            &&& content is Some ==> after.contains(
                OverrideModel {
                    path: path,
                    prop: BoundProp::TextContent,
                    value: ValueModel::Text(content->0),
                },
            )
            &&& color is Some ==> after.contains(
                OverrideModel {
                    path: path,
                    prop: BoundProp::FillColor { index: 0 },
                    value: ValueModel::Fills(
                        seq![Fill::Solid { color: color->0, blend: BlendMode::Normal }],
                    ),
                },
            )
            &&& forall|other: OverrideModel|
                #[trigger] base.contains(other) && (other.path != path || other.prop
                    != BoundProp::TextContent && other.prop != (BoundProp::FillColor { index: 0 }))
                    ==> after.contains(other)
        }),
{
    let items = crate::instance_text::edit_models(path, content, color);
    crate::instance_text::lemma_commit_is_preview(operations, id, base, items);
    reveal_with_fuel(crate::instance_text::all_upserted, 3);
    if let Some(words) = content {
        let first = crate::instance_text::content_model(path, words);
        lemma_upserted_holds(base, first);
        let middle = crate::instance_text::upserted(base, first);
        if let Some(paint) = color {
            let second = crate::instance_text::color_model(path, paint);
            assert(items =~= seq![first, second]);
            assert(items.drop_last() =~= seq![first]);
            assert(seq![first].drop_last() =~= Seq::<OverrideModel>::empty());
            lemma_upserted_holds(middle, second);
        } else {
            assert(items =~= seq![first]);
            assert(items.drop_last() =~= Seq::<OverrideModel>::empty());
        }
    } else if let Some(paint) = color {
        let second = crate::instance_text::color_model(path, paint);
        assert(items =~= seq![second]);
        assert(items.drop_last() =~= Seq::<OverrideModel>::empty());
        lemma_upserted_holds(base, second);
    }
}

// ---------------------------------------------------------------------------
// Media
// ---------------------------------------------------------------------------

/// An upload is taken exactly where the document is open, may be edited, is the one it
/// was started in, and the paint is still the one it was started on; two videos under one
/// name are kept apart.
pub proof fn lemma_upload_taken(
    open: Option<OpenDocument>,
    empty: EmptyItem,
    id: NodeId,
    is_stroke: bool,
    index: usize,
    upload: Upload,
)
    ensures
        crate::design_media::upload_refused(open, empty, id, is_stroke, index, upload) is None <==> {
            &&& open is Some
            &&& open->0.editable
            &&& open->0.doc.id == upload.document
            &&& crate::design_media::paint_kept(
                open->0.doc,
                id,
                is_stroke,
                index,
                upload.expected,
            )
            &&& !(upload.kind is Video && upload.collision)
        },
{
}

/// A video that failed says so, one that is loading or has no length yet is loading, and
/// else it shows its length, its time and whether it plays.
pub proof fn lemma_preview_shown(error: Option<String>, loading: bool, playback: Option<Playback>)
    ensures
        ({
            let state = crate::design_media::preview_shown(error, loading, playback);
            &&& error is Some ==> state is Failed
            &&& error is None && (loading || playback is None) ==> state is Loading
            &&& error is None && !loading && playback is Some ==> {
                let video = playback->0;
                &&& video.error is Some ==> state is Failed
                &&& video.error is None && video.duration_us == 0 ==> state is Loading
                &&& video.error is None && video.duration_us > 0 ==> state
                    == (crate::design_media::PreviewState::Ready {
                    duration_us: video.duration_us,
                    current_us: video.current_us,
                    playing: video.playing,
                })
            }
        }),
{
}

/// The paint at a place is replaced by a video exactly where it shows one.
pub proof fn lemma_upload_kind_follows(doc: Doc, id: NodeId, is_stroke: bool, index: usize)
    ensures
        crate::design_media::upload_kind_of(doc, id, is_stroke, index) is Video <==> (
        crate::design_paints::layer_paint(doc, id, is_stroke, index) matches Some(
            Fill::Video { .. },
        )),
{
}

} // verus!
