//! Laws: what edits in the inspector make of a document, said of the document as
//! it is once their operations are carried out.

use vstd::prelude::*;

use crate::design_data::{ChildEdit, DataEdit, LayoutEdit, StrokeEdit, StyleEdit, TextEdit};
use crate::design_properties::{PropertyEdit, PropertyFacts};
use crate::design_values::{
    BaselineAlignment, CounterAxisAlignContent, DesignBlendMode, DesignLayoutMode, DesignProperty,
    DesignValue, ItemSpacingMode, LayoutAlignSelf, LayoutPositioning, LetterSpacing, LineHeight,
    SizingMode, StackingOrder, StrokeDashMode, StrokeWeightMode, TextDecoration,
};
use crate::document::{
    AutoLayout, BooleanNode, CanvasNode, CounterAlign, Doc, GroupNode, LayoutChild, LayoutMode,
    NodeData, NodeFlags, TextNode, TextStyle, VectorNode,
};
use crate::ids::NodeId;
use crate::operations::{Content, Operation};
use crate::paint::{BlendMode, Quad, Stroke, StrokeCap};
use crate::sameness::Compared;
use crate::scalar::Scalar;

verus! {

// ---------------------------------------------------------------------------
// Documents before and after
// ---------------------------------------------------------------------------

/// What a document holds once operations are carried out.
pub open spec fn afterwards(doc: Doc, operations: Seq<Operation>) -> Content {
    crate::operations::all_applied(doc.content(), operations)
}

/// The operations can all be carried out, and nothing but one layer changes.
pub open spec fn changes_only(doc: Doc, id: NodeId, operations: Seq<Operation>) -> bool {
    let before = doc.content();
    let after = afterwards(doc, operations);
    &&& crate::operations::carried(before, operations)
    &&& after == (Content { nodes: before.nodes.insert(id, after.nodes[id]), ..before })
}

/// `r` is what `property_operations` gives for a layer that is there.
pub open spec fn edits_property(
    doc: Doc,
    id: NodeId,
    property: DesignProperty,
    value: DesignValue,
    facts: PropertyFacts,
    r: Option<PropertyEdit>,
) -> bool {
    &&& doc.well_formed()
    &&& doc.content().nodes.dom().contains(id)
    &&& crate::design_properties::property_outcome(doc, id, property, value, facts, r)
}

/// An edit that is carried out by operations of the document.
pub open spec fn is_operations(r: Option<PropertyEdit>) -> bool {
    r matches Some(PropertyEdit::Operations(_))
}

/// The operations of such an edit.
pub open spec fn steps_of(r: Option<PropertyEdit>) -> Seq<Operation> {
    match r {
        Some(PropertyEdit::Operations(list)) => list@,
        _ => Seq::empty(),
    }
}

pub(crate) proof fn lemma_two_steps(content: Content, operations: Seq<Operation>)
    ensures
        operations.len() == 0 ==> crate::operations::all_applied(content, operations) == content
            && crate::operations::carried(content, operations),
        operations.len() == 1 ==> crate::operations::all_applied(content, operations)
            == crate::operations::applied(content, operations[0]) && (
        crate::operations::carried(content, operations) <==> crate::operations::applicable(
            content,
            operations[0],
        )),
        operations.len() == 2 ==> crate::operations::all_applied(content, operations)
            == crate::operations::applied(
            crate::operations::applied(content, operations[0]),
            operations[1],
        ) && (crate::operations::carried(content, operations) <==> crate::operations::applicable(
            content,
            operations[0],
        ) && crate::operations::applicable(
            crate::operations::applied(content, operations[0]),
            operations[1],
        )),
{
    reveal_with_fuel(crate::operations::all_applied, 3);
    reveal_with_fuel(crate::operations::carried, 3);
    if operations.len() == 2 {
        assert(operations.drop_last() =~= seq![operations[0]]);
        assert(operations.drop_last().drop_last() =~= Seq::<Operation>::empty());
    }
    if operations.len() == 1 {
        assert(operations.drop_last() =~= Seq::<Operation>::empty());
    }
}

/// An edit of the data leaves the edited data, or equal ones, and all else as it
/// was.
proof fn lemma_data_lands(doc: Doc, id: NodeId, edit: DataEdit, operations: Seq<Operation>) -> (new:
    NodeData)
    requires
        doc.well_formed(),
        doc.content().nodes.dom().contains(id),
        crate::design_data::edits_data(operations, doc, id, edit),
        crate::design_data::concerns(edit, *doc.content().nodes[id].data),
    ensures
        changes_only(doc, id, operations),
        crate::design_data::data_edited(*doc.content().nodes[id].data, edit, new),
        ({
            let before = doc.content().nodes[id];
            let after = afterwards(doc, operations).nodes[id];
            &&& after == (CanvasNode { data: after.data, ..before })
            &&& *after.data == new || after.data == before.data && before.data.alike(new)
        }),
{
    crate::operations::lemma_find_is_content(doc, id);
    let node = doc.content().nodes[id];
    lemma_two_steps(doc.content(), operations);
    let new = choose|new: NodeData| #[trigger]
        crate::design_data::data_edited(*node.data, edit, new) && crate::design_data::renews(
            operations,
            node,
            new,
        );
    let after = afterwards(doc, operations);
    assert(doc.content().nodes.insert(id, node) =~= doc.content().nodes);
    assert(after.nodes =~= doc.content().nodes.insert(id, after.nodes[id]));
    new
}

// ---------------------------------------------------------------------------
// Showing, masking and blending
// ---------------------------------------------------------------------------

/// Showing or hiding a layer: it is hidden exactly where it is not to be seen, and
/// nothing else changes. There is no operation exactly where it is so already.
pub proof fn lemma_visibility_lands(
    doc: Doc,
    id: NodeId,
    visible: bool,
    facts: PropertyFacts,
    r: Option<PropertyEdit>,
)
    requires
        edits_property(
            doc,
            id,
            DesignProperty::Visible,
            DesignValue::Bool(visible),
            facts,
            r,
        ),
    ensures
        is_operations(r),
        changes_only(doc, id, steps_of(r)),
        ({
            let before = doc.content().nodes[id];
            afterwards(doc, steps_of(r)).nodes[id] == CanvasNode {
                flags: NodeFlags { hidden: !visible, ..before.flags },
                ..before
            }
        }),
        steps_of(r).len() == 0 <==> doc.content().nodes[id].flags.hidden == !visible,
{
    crate::operations::lemma_find_is_content(doc, id);
    lemma_two_steps(doc.content(), steps_of(r));
    let before = doc.content();
    assert(before.nodes.insert(id, before.nodes[id]) =~= before.nodes);
}

/// Making a layer a mask, or no mask: it is one exactly where asked for, and
/// nothing else changes.
pub proof fn lemma_masking_lands(
    doc: Doc,
    id: NodeId,
    masked: bool,
    facts: PropertyFacts,
    r: Option<PropertyEdit>,
)
    requires
        edits_property(
            doc,
            id,
            DesignProperty::IsMask,
            DesignValue::Bool(masked),
            facts,
            r,
        ),
    ensures
        is_operations(r),
        changes_only(doc, id, steps_of(r)),
        afterwards(doc, steps_of(r)).nodes[id] == (CanvasNode {
            is_mask: masked,
            ..doc.content().nodes[id]
        }),
        steps_of(r).len() == 0 <==> doc.content().nodes[id].is_mask == masked,
{
    crate::operations::lemma_find_is_content(doc, id);
    lemma_two_steps(doc.content(), steps_of(r));
    let before = doc.content();
    assert(before.nodes.insert(id, before.nodes[id]) =~= before.nodes);
}

/// The type of a mask becomes the one that is asked for, and nothing else changes.
pub proof fn lemma_mask_type_lands(
    doc: Doc,
    id: NodeId,
    kind: crate::document::MaskType,
    facts: PropertyFacts,
    r: Option<PropertyEdit>,
)
    requires
        edits_property(
            doc,
            id,
            DesignProperty::MaskType,
            DesignValue::MaskType(kind),
            facts,
            r,
        ),
    ensures
        is_operations(r),
        changes_only(doc, id, steps_of(r)),
        afterwards(doc, steps_of(r)).nodes[id] == (CanvasNode {
            mask_type: kind,
            ..doc.content().nodes[id]
        }),
        steps_of(r).len() == 0 <==> doc.content().nodes[id].mask_type == kind,
{
    crate::operations::lemma_find_is_content(doc, id);
    lemma_two_steps(doc.content(), steps_of(r));
    let before = doc.content();
    assert(before.nodes.insert(id, before.nodes[id]) =~= before.nodes);
}

/// The two modes have one name.
pub open spec fn same_blend(shown: DesignBlendMode, stored: BlendMode) -> bool {
    match stored {
        BlendMode::Normal => shown is Normal,
        BlendMode::Multiply => shown is Multiply,
        BlendMode::Screen => shown is Screen,
        BlendMode::Overlay => shown is Overlay,
        BlendMode::Darken => shown is Darken,
        BlendMode::Lighten => shown is Lighten,
        BlendMode::ColorDodge => shown is ColorDodge,
        BlendMode::ColorBurn => shown is ColorBurn,
        BlendMode::HardLight => shown is HardLight,
        BlendMode::SoftLight => shown is SoftLight,
        BlendMode::Difference => shown is Difference,
        BlendMode::Exclusion => shown is Exclusion,
        BlendMode::Hue => shown is Hue,
        BlendMode::Saturation => shown is Saturation,
        BlendMode::Color => shown is Color,
        BlendMode::Luminosity => shown is Luminosity,
    }
}

proof fn lemma_stored_names(wanted: DesignBlendMode)
    ensures
        crate::design_values::stored_blend(wanted) is None <==> wanted is PassThrough
            || wanted is LinearBurn || wanted is LinearDodge,
        crate::design_values::stored_blend(wanted) matches Some(engine) ==> same_blend(
            wanted,
            engine,
        ),
{
    let names = |mode: BlendMode| crate::design_values::blend_shown(mode) == wanted;
    assert(names(BlendMode::Normal) <==> wanted is Normal);
    assert(names(BlendMode::Multiply) <==> wanted is Multiply);
    assert(names(BlendMode::Screen) <==> wanted is Screen);
    assert(names(BlendMode::Overlay) <==> wanted is Overlay);
    assert(names(BlendMode::Darken) <==> wanted is Darken);
    assert(names(BlendMode::Lighten) <==> wanted is Lighten);
    assert(names(BlendMode::ColorDodge) <==> wanted is ColorDodge);
    assert(names(BlendMode::ColorBurn) <==> wanted is ColorBurn);
    assert(names(BlendMode::HardLight) <==> wanted is HardLight);
    assert(names(BlendMode::SoftLight) <==> wanted is SoftLight);
    assert(names(BlendMode::Difference) <==> wanted is Difference);
    assert(names(BlendMode::Exclusion) <==> wanted is Exclusion);
    assert(names(BlendMode::Hue) <==> wanted is Hue);
    assert(names(BlendMode::Saturation) <==> wanted is Saturation);
    assert(names(BlendMode::Color) <==> wanted is Color);
    assert(names(BlendMode::Luminosity) <==> wanted is Luminosity);
}

/// A blend mode is shown and stored under its own name; passing through and the
/// linear modes are not stored.
pub proof fn lemma_blend_names(stored: BlendMode, wanted: DesignBlendMode)
    ensures
        same_blend(crate::design_values::blend_shown(stored), stored),
        crate::design_values::stored_blend(wanted) is None <==> wanted is PassThrough
            || wanted is LinearBurn || wanted is LinearDodge,
        crate::design_values::stored_blend(wanted) matches Some(engine) ==> same_blend(
            wanted,
            engine,
        ),
{
    lemma_stored_names(wanted);
}

/// A layer gets the blend mode that is asked for. To pass through is to be normal
/// and not isolated; to be normal is to be isolated; any other mode leaves the
/// isolation as it is. Nothing else changes.
pub proof fn lemma_blending_lands(
    doc: Doc,
    id: NodeId,
    mode: DesignBlendMode,
    facts: PropertyFacts,
    r: Option<PropertyEdit>,
)
    requires
        edits_property(
            doc,
            id,
            DesignProperty::BlendMode,
            DesignValue::BlendMode(mode),
            facts,
            r,
        ),
    ensures
        is_operations(r) <==> !(mode is LinearBurn || mode is LinearDodge),
        is_operations(r) ==> changes_only(doc, id, steps_of(r)),
        is_operations(r) ==> ({
            let before = doc.content().nodes[id];
            let after = afterwards(doc, steps_of(r)).nodes[id];
            &&& after == (CanvasNode {
                blend_mode: after.blend_mode,
                flags: NodeFlags {
                    isolated_blend: if mode is PassThrough {
                        false
                    } else if mode is Normal {
                        true
                    } else {
                        before.flags.isolated_blend
                    },
                    ..before.flags
                },
                ..before
            })
            &&& if mode is PassThrough {
                after.blend_mode is Normal
            } else {
                same_blend(mode, after.blend_mode)
            }
        }),
{
    crate::operations::lemma_find_is_content(doc, id);
    lemma_two_steps(doc.content(), steps_of(r));
    let before = doc.content();
    assert(before.nodes.insert(id, before.nodes[id]) =~= before.nodes);
    lemma_stored_names(mode);
    let after = afterwards(doc, steps_of(r));
    assert(after.nodes =~= before.nodes.insert(id, after.nodes[id]));
}

// ---------------------------------------------------------------------------
// Strokes
// ---------------------------------------------------------------------------

/// The strokes of an outline or a group.
pub open spec fn strokes_in(data: NodeData) -> Seq<Stroke> {
    match data {
        NodeData::Vector(vector) => vector.strokes@,
        NodeData::Group(group) => group.strokes@,
        _ => Seq::empty(),
    }
}

/// Nothing but the strokes differs.
pub open spec fn same_but_strokes(a: NodeData, b: NodeData) -> bool {
    match (a, b) {
        (NodeData::Vector(a), NodeData::Vector(b)) => b == (VectorNode { strokes: b.strokes, ..a }),
        (NodeData::Group(a), NodeData::Group(b)) => b == (GroupNode { strokes: b.strokes, ..a }),
        _ => false,
    }
}

/// The number that a weight, a padding or a dash takes: the one that is asked for,
/// and nothing where that is negative or no number.
pub open spec fn takes(now: Scalar, asked: Scalar) -> bool {
    if asked.nan() || asked.rank() <= 0 {
        !now.nan() && now.rank() == 0
    } else {
        !now.nan() && now.rank() == asked.rank()
    }
}

/// The weights of a stroke side by side, from the top on clockwise.
pub open spec fn sides_of(stroke: Stroke) -> Quad {
    match stroke.per_side {
        Some(sides) => sides,
        None => Quad {
            first: stroke.width,
            second: stroke.width,
            third: stroke.width,
            fourth: stroke.width,
        },
    }
}

/// The value is one that the inspector edits this property of strokes with.
pub open spec fn edits_strokes(property: DesignProperty, value: DesignValue) -> bool {
    match property {
        DesignProperty::StrokeWeight
        | DesignProperty::StrokeWeightTop
        | DesignProperty::StrokeWeightRight
        | DesignProperty::StrokeWeightBottom
        | DesignProperty::StrokeWeightLeft
        | DesignProperty::StrokeMiterAngle => value is Number || value is Integer,
        DesignProperty::StrokeWeightMode => value is StrokeWeightMode,
        DesignProperty::StrokeAlign => value is StrokeAlign,
        DesignProperty::StrokeJoin => value is StrokeJoin,
        DesignProperty::StrokeStartCap
        | DesignProperty::StrokeEndCap
        | DesignProperty::StrokeEndpointCap
        | DesignProperty::StrokeDashCap => value is StrokeCap,
        DesignProperty::StrokeDashMode => value is StrokeDashMode,
        DesignProperty::StrokeDashPattern => value is NumberList,
        _ => false,
    }
}

/// What an edit makes of each stroke of a layer.
pub open spec fn stroke_takes(
    property: DesignProperty,
    value: DesignValue,
    facts: PropertyFacts,
    before: Stroke,
    after: Stroke,
) -> bool {
    match (property, value) {
        (DesignProperty::StrokeWeight, DesignValue::Number(weight))
        | (DesignProperty::StrokeWeight, DesignValue::Integer(weight)) => match before.per_side {
            Some(sides) => {
                &&& after.per_side matches Some(now) && takes(now.first, weight) && now == (Quad {
                    first: now.first,
                    ..sides
                })
                &&& after == (Stroke { per_side: after.per_side, ..before })
            },
            None => takes(after.width, weight) && after == (Stroke { width: after.width, ..before }),
        },
        (DesignProperty::StrokeWeightTop, DesignValue::Number(weight))
        | (DesignProperty::StrokeWeightTop, DesignValue::Integer(weight)) => {
            &&& after == (Stroke { per_side: after.per_side, ..before })
            &&& after.per_side matches Some(now) && takes(now.first, weight) && now == (Quad {
                first: now.first,
                ..sides_of(before)
            })
        },
        (DesignProperty::StrokeWeightRight, DesignValue::Number(weight))
        | (DesignProperty::StrokeWeightRight, DesignValue::Integer(weight)) => {
            &&& after == (Stroke { per_side: after.per_side, ..before })
            &&& after.per_side matches Some(now) && takes(now.second, weight) && now == (Quad {
                second: now.second,
                ..sides_of(before)
            })
        },
        (DesignProperty::StrokeWeightBottom, DesignValue::Number(weight))
        | (DesignProperty::StrokeWeightBottom, DesignValue::Integer(weight)) => {
            &&& after == (Stroke { per_side: after.per_side, ..before })
            &&& after.per_side matches Some(now) && takes(now.third, weight) && now == (Quad {
                third: now.third,
                ..sides_of(before)
            })
        },
        (DesignProperty::StrokeWeightLeft, DesignValue::Number(weight))
        | (DesignProperty::StrokeWeightLeft, DesignValue::Integer(weight)) => {
            &&& after == (Stroke { per_side: after.per_side, ..before })
            &&& after.per_side matches Some(now) && takes(now.fourth, weight) && now == (Quad {
                fourth: now.fourth,
                ..sides_of(before)
            })
        },
        (DesignProperty::StrokeWeightMode, DesignValue::StrokeWeightMode(mode)) => if mode is All {
            after == (Stroke { width: sides_of(before).first, per_side: None, ..before })
        } else {
            after == (Stroke { per_side: Some(sides_of(before)), ..before })
        },
        (DesignProperty::StrokeAlign, DesignValue::StrokeAlign(align)) => after == (Stroke {
            align: align,
            ..before
        }),
        (DesignProperty::StrokeJoin, DesignValue::StrokeJoin(join)) => after == (Stroke {
            join: join,
            ..before
        }),
        (DesignProperty::StrokeStartCap, DesignValue::StrokeCap(cap))
        | (DesignProperty::StrokeEndCap, DesignValue::StrokeCap(cap))
        | (DesignProperty::StrokeEndpointCap, DesignValue::StrokeCap(cap))
        | (DesignProperty::StrokeDashCap, DesignValue::StrokeCap(cap)) => after == (Stroke {
            cap: after.cap,
            ..before
        }) && (after.cap is Round <==> cap is Round) && (after.cap is Square <==> cap is Square),
        (DesignProperty::StrokeMiterAngle, DesignValue::Number(_))
        | (DesignProperty::StrokeMiterAngle, DesignValue::Integer(_)) => after == (Stroke {
            miter_limit: after.miter_limit,
            ..before
        }) && (!facts.miter_limit.nan() ==> after.miter_limit.same(facts.miter_limit)),
        (DesignProperty::StrokeDashMode, DesignValue::StrokeDashMode(mode)) => {
            &&& after == (Stroke { dash: after.dash, ..before })
            &&& if mode is Solid {
                after.dash@.len() == 0
            } else if before.dash@.len() > 0 {
                after.dash == before.dash
            } else {
                after.dash@.len() == 2 && after.dash@[0].bits == 0x4010_0000_0000_0000
                    && after.dash@[1].bits == 0x4010_0000_0000_0000
            }
        },
        (DesignProperty::StrokeDashPattern, DesignValue::NumberList(pattern)) => {
            &&& after == (Stroke { dash: after.dash, ..before })
            &&& after.dash@.len() == pattern@.len()
            &&& forall|k: int|
                0 <= k < pattern@.len() ==> takes(#[trigger] after.dash@[k], pattern@[k])
        },
        _ => false,
    }
}

proof fn lemma_stroke_takes(
    property: DesignProperty,
    value: DesignValue,
    facts: PropertyFacts,
    edit: StrokeEdit,
    before: Stroke,
    after: Stroke,
)
    requires
        edits_strokes(property, value),
        crate::design_properties::stroke_edit_of(property, value, facts, Some(edit)),
        after == crate::design_data::stroke_edited(before, edit) || after == before
            && before.alike(crate::design_data::stroke_edited(before, edit)),
    ensures
        stroke_takes(property, value, facts, before, after),
{
    let edited = crate::design_data::stroke_edited(before, edit);
    if let DesignValue::NumberList(pattern) = value {
        if property is StrokeDashPattern {
            assert(edited.dash@ == crate::design_properties::zeroed(pattern@));
            assert forall|k: int| 0 <= k < pattern@.len() implies takes(
                #[trigger] after.dash@[k],
                pattern@[k],
            ) by {
                assert(crate::design_properties::zeroed(pattern@)[k]
                    == pattern@[k].at_least_zero());
                if after != edited {
                    assert(before.dash@[k].alike(edited.dash@[k]));
                }
            }
        }
    }
}

/// An edit of strokes changes every stroke of the layer as it is asked for, and
/// nothing else.
pub proof fn lemma_strokes_land(
    doc: Doc,
    id: NodeId,
    property: DesignProperty,
    value: DesignValue,
    facts: PropertyFacts,
    r: Option<PropertyEdit>,
)
    requires
        edits_property(doc, id, property, value, facts, r),
        *doc.content().nodes[id].data is Vector || *doc.content().nodes[id].data is Group,
        edits_strokes(property, value),
    ensures
        is_operations(r),
        changes_only(doc, id, steps_of(r)),
        ({
            let before = doc.content().nodes[id];
            let after = afterwards(doc, steps_of(r)).nodes[id];
            &&& after == (CanvasNode { data: after.data, ..before })
            &&& same_but_strokes(*before.data, *after.data)
            &&& strokes_in(*after.data).len() == strokes_in(*before.data).len()
            &&& forall|i: int|
                0 <= i < strokes_in(*before.data).len() ==> stroke_takes(
                    property,
                    value,
                    facts,
                    #[trigger] strokes_in(*before.data)[i],
                    strokes_in(*after.data)[i],
                )
        }),
{
    crate::operations::lemma_find_is_content(doc, id);
    let edit = choose|edit: Option<StrokeEdit>| #[trigger]
        crate::design_properties::stroke_edit_of(property, value, facts, edit)
            && crate::design_properties::data_outcome(
            doc,
            id,
            (match edit {
                Some(edit) => Some(DataEdit::Strokes(edit)),
                None => None,
            }),
            r,
        );
    let edit = edit->0;
    let new = lemma_data_lands(doc, id, DataEdit::Strokes(edit), steps_of(r));
    let before = *doc.content().nodes[id].data;
    let after = *afterwards(doc, steps_of(r)).nodes[id].data;
    assert forall|i: int| 0 <= i < strokes_in(before).len() implies stroke_takes(
        property,
        value,
        facts,
        #[trigger] strokes_in(before)[i],
        strokes_in(after)[i],
    ) by {
        assert(strokes_in(new)[i] == crate::design_data::stroke_edited(
            strokes_in(before)[i],
            edit,
        ));
        if after != new {
            assert(before.alike(new));
            assert(strokes_in(before)[i].alike(strokes_in(new)[i]));
        }
        lemma_stroke_takes(
            property,
            value,
            facts,
            edit,
            strokes_in(before)[i],
            strokes_in(after)[i],
        );
    }
}

// ---------------------------------------------------------------------------
// Layout of a frame
// ---------------------------------------------------------------------------

/// The cell of the alignment grid for a number: none below one, the last from two
/// on.
pub open spec fn cell_for(number: Scalar) -> int {
    if number.nan() || number.rank() < 0x3ff0_0000_0000_0000 {
        0
    } else if number.rank() < 0x4000_0000_0000_0000 {
        1
    } else {
        2
    }
}

proof fn lemma_cell_falls(number: Scalar)
    ensures
        crate::design_properties::cell_in(number) == cell_for(number),
{
    let x = number.clamped(
        Scalar::of(crate::scalar::ZERO),
        Scalar::of(crate::scalar::TWO),
    );
    if !(x.nan() || x.rank() <= 0 || x.exponent() < 1023) {
        let shift = (1075 - x.exponent()) as nat;
        let p = vstd::arithmetic::power2::pow2(shift) as int;
        let s = x.significand();
        vstd::arithmetic::power2::lemma2_to64_rest();
        if x.exponent() == 1024 {
            assert(shift == 51);
            assert(x.magnitude() == 0x4000_0000_0000_0000);
            assert(s == 0x10_0000_0000_0000);
            assert(s / p == 2);
        } else {
            assert(shift == 52);
            assert(p == 0x10_0000_0000_0000);
            assert(s / p == 1);
        }
    }
}

/// A layout aligned to a cell along its axis and to one across it. Spacing that
/// fills the axis stays.
pub open spec fn aligned_at(before: AutoLayout, after: AutoLayout, along: int, across: int) -> bool {
    &&& after == (AutoLayout {
        primary_align: after.primary_align,
        counter_align: after.counter_align,
        ..before
    })
    &&& if before.primary_align is SpaceBetween || before.primary_align is SpaceEvenly {
        after.primary_align == before.primary_align
    } else {
        &&& after.primary_align is Start <==> along == 0
        &&& after.primary_align is Center <==> along == 1
        &&& after.primary_align is End <==> along >= 2
    }
    &&& after.counter_align is Start <==> across == 0
    &&& after.counter_align is Center <==> across == 1
    &&& after.counter_align is End <==> across >= 2
}

/// The value is one that the inspector edits this property of a layout with.
pub open spec fn edits_layout(property: DesignProperty, value: DesignValue) -> bool {
    match property {
        DesignProperty::AutoLayoutAlignment => value is AutoLayoutAlignment,
        DesignProperty::AlignmentX
        | DesignProperty::AlignmentY
        | DesignProperty::PaddingTop
        | DesignProperty::PaddingRight
        | DesignProperty::PaddingBottom
        | DesignProperty::PaddingLeft => value is Number || value is Integer,
        DesignProperty::ItemSpacingMode => value is ItemSpacingMode,
        DesignProperty::CounterAxisAlignContent => value is CounterAxisAlignContent,
        DesignProperty::StackingOrder => value is StackingOrder,
        DesignProperty::IncludeStrokes | DesignProperty::Wrap => value is Bool,
        DesignProperty::BaselineAlignment => value is BaselineAlignment,
        DesignProperty::PaddingShorthand => value matches DesignValue::NumberList(list) && 1
            <= list@.len() <= 4,
        _ => false,
    }
}

/// What an edit makes of the layout of a frame. Columns run along a horizontal
/// layout, rows along a vertical one.
pub open spec fn layout_takes(
    property: DesignProperty,
    value: DesignValue,
    before: AutoLayout,
    after: AutoLayout,
) -> bool {
    match (property, value) {
        (DesignProperty::AutoLayoutAlignment, DesignValue::AutoLayoutAlignment { x, y }) => if
            before.mode is Horizontal {
            aligned_at(before, after, x as int, y as int)
        } else {
            aligned_at(before, after, y as int, x as int)
        },
        (DesignProperty::AlignmentX, DesignValue::Number(number))
        | (DesignProperty::AlignmentX, DesignValue::Integer(number)) => if before.mode is Horizontal {
                aligned_at(
                    before,
                    after,
                    cell_for(number),
                    if before.counter_align is Center {
                        1
                    } else if before.counter_align is End {
                        2
                    } else {
                        0
                    },
                )
            } else {
                aligned_at(
                    before,
                    after,
                    if before.primary_align is Center {
                        1
                    } else if before.primary_align is End {
                        2
                    } else {
                        0
                    },
                    cell_for(number),
                )
            },
        (DesignProperty::AlignmentY, DesignValue::Number(number))
        | (DesignProperty::AlignmentY, DesignValue::Integer(number)) => if before.mode is Horizontal {
                aligned_at(
                    before,
                    after,
                    if before.primary_align is Center {
                        1
                    } else if before.primary_align is End {
                        2
                    } else {
                        0
                    },
                    cell_for(number),
                )
            } else {
                aligned_at(
                    before,
                    after,
                    cell_for(number),
                    if before.counter_align is Center {
                        1
                    } else if before.counter_align is End {
                        2
                    } else {
                        0
                    },
                )
            },
        (DesignProperty::ItemSpacingMode, DesignValue::ItemSpacingMode(mode)) => {
            &&& after == (AutoLayout { primary_align: after.primary_align, ..before })
            &&& mode is Auto ==> after.primary_align is SpaceBetween
            &&& mode is Fixed ==> if before.primary_align is SpaceBetween
                || before.primary_align is SpaceEvenly {
                after.primary_align is Start
            } else {
                after.primary_align == before.primary_align
            }
        },
        (
            DesignProperty::CounterAxisAlignContent,
            DesignValue::CounterAxisAlignContent(content),
        ) => after == (AutoLayout { counter_auto_spacing: content is SpaceBetween, ..before }),
        (DesignProperty::StackingOrder, DesignValue::StackingOrder(order)) => after == (AutoLayout {
            reverse_z: order is FirstOnTop,
            ..before
        }),
        (DesignProperty::IncludeStrokes, DesignValue::Bool(counted)) => after == (AutoLayout {
            include_strokes: counted,
            ..before
        }),
        (DesignProperty::BaselineAlignment, DesignValue::BaselineAlignment(alignment)) => {
            &&& after == (AutoLayout { counter_align: after.counter_align, ..before })
            &&& alignment is Baseline ==> after.counter_align is Baseline
            &&& alignment is Bounds ==> after.counter_align is Start
        },
        (DesignProperty::Wrap, DesignValue::Bool(wrap)) => after == (AutoLayout {
            wrap: wrap,
            ..before
        }),
        (DesignProperty::PaddingTop, DesignValue::Number(padding))
        | (DesignProperty::PaddingTop, DesignValue::Integer(padding)) => takes(
            after.padding.first,
            padding,
        ) && after == (AutoLayout {
            padding: Quad { first: after.padding.first, ..before.padding },
            ..before
        }),
        (DesignProperty::PaddingRight, DesignValue::Number(padding))
        | (DesignProperty::PaddingRight, DesignValue::Integer(padding)) => takes(
            after.padding.second,
            padding,
        ) && after == (AutoLayout {
            padding: Quad { second: after.padding.second, ..before.padding },
            ..before
        }),
        (DesignProperty::PaddingBottom, DesignValue::Number(padding))
        | (DesignProperty::PaddingBottom, DesignValue::Integer(padding)) => takes(
            after.padding.third,
            padding,
        ) && after == (AutoLayout {
            padding: Quad { third: after.padding.third, ..before.padding },
            ..before
        }),
        (DesignProperty::PaddingLeft, DesignValue::Number(padding))
        | (DesignProperty::PaddingLeft, DesignValue::Integer(padding)) => takes(
            after.padding.fourth,
            padding,
        ) && after == (AutoLayout {
            padding: Quad { fourth: after.padding.fourth, ..before.padding },
            ..before
        }),
        (DesignProperty::PaddingShorthand, DesignValue::NumberList(list)) => {
            let n = list@.len() as int;
            &&& after == (AutoLayout { padding: after.padding, ..before })
            &&& takes(after.padding.first, list@[0])
            &&& takes(
                after.padding.second,
                if n == 1 {
                    list@[0]
                } else {
                    list@[1]
                },
            )
            &&& takes(
                after.padding.third,
                if n <= 2 {
                    list@[0]
                } else {
                    list@[2]
                },
            )
            &&& takes(
                after.padding.fourth,
                if n == 1 {
                    list@[0]
                } else if n <= 3 {
                    list@[1]
                } else {
                    list@[3]
                },
            )
        },
        _ => false,
    }
}

proof fn lemma_layout_takes(
    property: DesignProperty,
    value: DesignValue,
    edit: LayoutEdit,
    before: AutoLayout,
    after: AutoLayout,
)
    requires
        edits_layout(property, value),
        crate::design_properties::layout_edit_of(Some(before), property, value) == Some(edit),
        after == crate::design_data::layout_edited(before, edit) || after == before
            && before.alike(crate::design_data::layout_edited(before, edit)),
    ensures
        layout_takes(property, value, before, after),
{
    match value {
        DesignValue::Number(number) => {
            lemma_cell_falls(number);
        },
        DesignValue::Integer(number) => {
            lemma_cell_falls(number);
        },
        DesignValue::NumberList(list) => {
            let zeroed = crate::design_properties::zeroed(list@);
            assert(zeroed.len() == list@.len());
            assert forall|k: int| 0 <= k < list@.len() implies takes(
                #[trigger] zeroed[k],
                list@[k],
            ) by {
                assert(zeroed[k] == list@[k].at_least_zero());
            }
        },
        _ => {},
    }
}

/// An edit of a layout changes it as it is asked for, and nothing else.
pub proof fn lemma_layout_lands(
    doc: Doc,
    id: NodeId,
    property: DesignProperty,
    value: DesignValue,
    facts: PropertyFacts,
    group: GroupNode,
    layout: AutoLayout,
    r: Option<PropertyEdit>,
)
    requires
        edits_property(doc, id, property, value, facts, r),
        edits_layout(property, value),
        *doc.content().nodes[id].data == NodeData::Group(group),
        group.auto_layout == Some(layout),
    ensures
        is_operations(r),
        changes_only(doc, id, steps_of(r)),
        ({
            let before = doc.content().nodes[id];
            let after = afterwards(doc, steps_of(r)).nodes[id];
            &&& after == (CanvasNode { data: after.data, ..before })
            &&& *after.data matches NodeData::Group(now) && now == (GroupNode {
                auto_layout: now.auto_layout,
                ..group
            }) && (now.auto_layout matches Some(now) && layout_takes(property, value, layout, now))
        }),
{
    crate::operations::lemma_find_is_content(doc, id);
    let edit = crate::design_properties::layout_edit_of(Some(layout), property, value)->0;
    let new = lemma_data_lands(doc, id, DataEdit::Layout(edit), steps_of(r));
    let after = *afterwards(doc, steps_of(r)).nodes[id].data;
    lemma_layout_takes(property, value, edit, layout, after->Group_0.auto_layout->0);
}

// ---------------------------------------------------------------------------
// Children of a laid-out frame
// ---------------------------------------------------------------------------

/// The layer stands in a frame that lays out its children.
pub open spec fn laid_out(content: Content, id: NodeId) -> bool {
    content.nodes[id].parent matches Some(parent) && content.nodes.dom().contains(parent) && (
    *content.nodes[parent].data matches NodeData::Group(group) && (
    group.auto_layout matches Some(layout) && layout.child_layout))
}

/// What a layer says to its layout; one that says nothing stands in the flow, does
/// not grow and is aligned as the others.
pub open spec fn says(node: CanvasNode) -> LayoutChild {
    match node.layout_child {
        Some(child) => child,
        None => LayoutChild { grow: Scalar { bits: 0 }, absolute: false, align_self: None },
    }
}

/// The value is one that the inspector edits this property of a child with.
pub open spec fn edits_child_of(property: DesignProperty, value: DesignValue) -> bool {
    match property {
        DesignProperty::LayoutPositioning => value is LayoutPositioning,
        DesignProperty::LayoutAlignSelf => value is LayoutAlignSelf,
        DesignProperty::LayoutGrow => value is Number || value is Integer,
        _ => false,
    }
}

/// Both grow alike, where that is a number.
pub open spec fn grows_alike(a: Scalar, b: Scalar) -> bool {
    a == b || a.same(b)
}

/// An edit of what a child says to its layout changes it as it is asked for, and
/// nothing else. A layer that stands in no layout says nothing new.
pub proof fn lemma_child_lands(
    doc: Doc,
    id: NodeId,
    property: DesignProperty,
    value: DesignValue,
    facts: PropertyFacts,
    r: Option<PropertyEdit>,
)
    requires
        edits_property(doc, id, property, value, facts, r),
        edits_child_of(property, value),
    ensures
        is_operations(r),
        changes_only(doc, id, steps_of(r)),
        !laid_out(doc.content(), id) ==> steps_of(r).len() == 0,
        laid_out(doc.content(), id) ==> ({
            let before = doc.content().nodes[id];
            let after = afterwards(doc, steps_of(r)).nodes[id];
            let was = says(before);
            let now = says(after);
            &&& after == (CanvasNode { layout_child: after.layout_child, ..before })
            &&& match (property, value) {
                (
                    DesignProperty::LayoutPositioning,
                    DesignValue::LayoutPositioning(positioning),
                ) => now.absolute == (positioning is Absolute) && now.align_self == was.align_self
                    && grows_alike(now.grow, was.grow),
                (DesignProperty::LayoutAlignSelf, DesignValue::LayoutAlignSelf(alignment)) => {
                    &&& now.absolute == was.absolute
                    &&& grows_alike(now.grow, was.grow)
                    &&& alignment is Stretch ==> now.align_self == Some(CounterAlign::Stretch)
                    &&& alignment is Inherit ==> now.align_self is None
                },
                (DesignProperty::LayoutGrow, DesignValue::Number(grow))
                | (DesignProperty::LayoutGrow, DesignValue::Integer(grow)) => {
                    &&& now.absolute == was.absolute
                    &&& now.align_self == was.align_self
                    &&& !grow.nan() ==> !now.grow.nan() && now.grow.rank() == if grow.rank() < 0 {
                        0
                    } else if grow.rank() > 0x3ff0_0000_0000_0000 {
                        0x3ff0_0000_0000_0000int
                    } else {
                        grow.rank()
                    }
                },
                _ => false,
            }
        }),
{
    crate::operations::lemma_find_is_content(doc, id);
    let before = doc.content();
    if let Some(parent) = before.nodes[id].parent {
        crate::operations::lemma_find_is_content(doc, parent);
    }
    lemma_two_steps(before, steps_of(r));
    assert(before.nodes.insert(id, before.nodes[id]) =~= before.nodes);
    let after = afterwards(doc, steps_of(r));
    assert(after.nodes =~= before.nodes.insert(id, after.nodes[id]));
}

// ---------------------------------------------------------------------------
// Text
// ---------------------------------------------------------------------------

/// A number that a size or a height can be: finite and above zero.
pub open spec fn above_zero(number: Scalar) -> bool {
    0 < number.rank() < 0x7ff0_0000_0000_0000
}

/// The value is one that the inspector edits this property of a text with.
pub open spec fn edits_text(
    property: DesignProperty,
    value: DesignValue,
    facts: PropertyFacts,
) -> bool {
    match (property, value) {
        (DesignProperty::FontFamily, DesignValue::Text(family)) => family@.len() > 0,
        (DesignProperty::FontSize, DesignValue::Number(size))
        | (DesignProperty::FontSize, DesignValue::Integer(size)) => above_zero(size),
        (DesignProperty::FontWeight, DesignValue::Number(_))
        | (DesignProperty::FontWeight, DesignValue::Integer(_)) => true,
        (DesignProperty::LineHeight, DesignValue::LineHeight(height)) => height is Percent
            && above_zero(facts.fraction),
        (DesignProperty::LetterSpacing, DesignValue::LetterSpacing(LetterSpacing::Pixels(pixels))) =>
            -0x7ff0_0000_0000_0000 < pixels.rank() < 0x7ff0_0000_0000_0000,
        (DesignProperty::HorizontalTextAlignment, DesignValue::TextHorizontalAlignment(_)) => true,
        (DesignProperty::VerticalTextAlignment, DesignValue::TextVerticalAlignment(_)) => true,
        (DesignProperty::TextDecoration, DesignValue::TextDecoration(_)) => true,
        (DesignProperty::TextResize, DesignValue::TextResize(_)) => true,
        _ => false,
    }
}

/// The inspector gives this property of a text such a value, that can be kept or
/// not.
pub open spec fn names_text(property: DesignProperty) -> bool {
    property is FontFamily || property is FontSize || property is FontWeight
        || property is LineHeight || property is LetterSpacing
        || property is HorizontalTextAlignment || property is VerticalTextAlignment
        || property is TextDecoration || property is TextResize
}

/// What an edit makes of a style.
pub open spec fn style_takes(
    property: DesignProperty,
    value: DesignValue,
    facts: PropertyFacts,
    before: TextStyle,
    after: TextStyle,
) -> bool {
    match (property, value) {
        (DesignProperty::FontFamily, DesignValue::Text(family)) => after.font_family@ == family@
            && after == (TextStyle { font_family: after.font_family, ..before }),
        (DesignProperty::FontSize, DesignValue::Number(size))
        | (DesignProperty::FontSize, DesignValue::Integer(size)) => after.size_px.same(size) && after
            == (TextStyle { size_px: after.size_px, ..before }),
        (DesignProperty::FontWeight, DesignValue::Number(weight))
        | (DesignProperty::FontWeight, DesignValue::Integer(weight)) => {
            &&& after == (TextStyle { weight: after.weight, ..before })
            &&& !weight.nan() && weight.rank() <= 0x3ff0_0000_0000_0000 ==> after.weight == 1
            &&& !weight.nan() && weight.rank() >= 0x408f_4000_0000_0000 ==> after.weight == 1000
        },
        (DesignProperty::LineHeight, DesignValue::LineHeight(_)) => {
            &&& after == (TextStyle {
                line_height: after.line_height,
                line_height_auto_percent: None,
                ..before
            })
            &&& after.line_height.same(facts.fraction)
        },
        (DesignProperty::LetterSpacing, DesignValue::LetterSpacing(LetterSpacing::Pixels(pixels))) =>
            after.letter_spacing.same(pixels) && after == (TextStyle {
            letter_spacing: after.letter_spacing,
            ..before
        }),
        (DesignProperty::TextDecoration, DesignValue::TextDecoration(decoration)) => after == (
        TextStyle {
            underline: decoration is Underline,
            strikethrough: decoration is Strikethrough,
            ..before
        }),
        _ => after == before,
    }
}

/// What an edit makes of a text: a style is that of the whole text and of every
/// stretch of it.
pub open spec fn text_takes(
    property: DesignProperty,
    value: DesignValue,
    facts: PropertyFacts,
    before: TextNode,
    after: TextNode,
) -> bool {
    &&& after == (TextNode {
        style: after.style,
        style_runs: after.style_runs,
        align: match value {
            DesignValue::TextHorizontalAlignment(align) => align,
            _ => before.align,
        },
        vertical_align: match value {
            DesignValue::TextVerticalAlignment(align) => align,
            _ => before.vertical_align,
        },
        auto_resize: match value {
            DesignValue::TextResize(resize) => resize,
            _ => before.auto_resize,
        },
        ..before
    })
    &&& style_takes(property, value, facts, before.style, after.style)
    &&& after.style_runs@.len() == before.style_runs@.len()
    &&& forall|i: int|
        0 <= i < before.style_runs@.len() ==> {
            &&& (#[trigger] after.style_runs@[i]).start == before.style_runs@[i].start
            &&& after.style_runs@[i].end == before.style_runs@[i].end
            &&& style_takes(
                property,
                value,
                facts,
                before.style_runs@[i].style,
                after.style_runs@[i].style,
            )
        }
}

proof fn lemma_weight_ends(number: Scalar)
    ensures
        !number.nan() && number.rank() <= 0x3ff0_0000_0000_0000
            ==> crate::design_properties::weight_in(number) == 1,
        !number.nan() && number.rank() >= 0x408f_4000_0000_0000
            ==> crate::design_properties::weight_in(number) == 1000,
{
    let low = Scalar::of(crate::scalar::ONE);
    let high = Scalar::of(crate::scalar::THOUSAND);
    let x = number.clamped(low, high);
    vstd::arithmetic::power2::lemma2_to64();
    vstd::arithmetic::power2::lemma2_to64_rest();
    if !number.nan() && number.rank() <= 0x3ff0_0000_0000_0000 {
        assert(x.rank() == 0x3ff0_0000_0000_0000);
        assert(x.magnitude() == 0x3ff0_0000_0000_0000);
        assert(x.exponent() == 1023);
        assert(x.significand() == 0x10_0000_0000_0000);
        assert((1075 - x.exponent()) as nat == 52);
        assert(x.whole_part() == 1);
    }
    if !number.nan() && number.rank() >= 0x408f_4000_0000_0000 {
        assert(x.rank() == 0x408f_4000_0000_0000);
        assert(x.magnitude() == 0x408f_4000_0000_0000);
        assert(x.exponent() == 1032);
        assert(x.significand() == 0x1f_4000_0000_0000);
        assert((1075 - x.exponent()) as nat == 43);
        assert(x.whole_part() == 1000);
    }
}

proof fn lemma_style_takes(
    property: DesignProperty,
    value: DesignValue,
    facts: PropertyFacts,
    edit: StyleEdit,
    before: TextStyle,
    after: TextStyle,
)
    requires
        edits_text(property, value, facts),
        crate::design_properties::text_edit_of(property, value, facts) == Some(
            TextEdit::Style(edit),
        ),
        after == crate::design_data::style_edited(before, edit) || after == before && before.alike(
            crate::design_data::style_edited(before, edit),
        ),
    ensures
        style_takes(property, value, facts, before, after),
{
    match value {
        DesignValue::Number(number) => {
            lemma_weight_ends(number);
        },
        DesignValue::Integer(number) => {
            lemma_weight_ends(number);
        },
        _ => {},
    }
}

/// An edit of a text changes it, and every stretch of it, as it is asked for, and
/// nothing else.
pub proof fn lemma_text_lands(
    doc: Doc,
    id: NodeId,
    property: DesignProperty,
    value: DesignValue,
    facts: PropertyFacts,
    text: TextNode,
    r: Option<PropertyEdit>,
)
    requires
        edits_property(doc, id, property, value, facts, r),
        edits_text(property, value, facts),
        *doc.content().nodes[id].data == NodeData::Text(text),
    ensures
        is_operations(r),
        changes_only(doc, id, steps_of(r)),
        ({
            let before = doc.content().nodes[id];
            let after = afterwards(doc, steps_of(r)).nodes[id];
            &&& after == (CanvasNode { data: after.data, ..before })
            &&& *after.data matches NodeData::Text(now) && text_takes(
                property,
                value,
                facts,
                text,
                now,
            )
        }),
{
    crate::operations::lemma_find_is_content(doc, id);
    let edit = crate::design_properties::text_edit_of(property, value, facts);
    assert(edit is Some);
    let edit = edit->0;
    let new = lemma_data_lands(doc, id, DataEdit::Text(edit), steps_of(r));
    let after = *afterwards(doc, steps_of(r)).nodes[id].data;
    let now = after->Text_0;
    let wanted = new->Text_0;
    if let TextEdit::Style(style) = edit {
        lemma_style_takes(property, value, facts, style, text.style, now.style);
        assert forall|i: int| 0 <= i < text.style_runs@.len() implies {
            &&& (#[trigger] now.style_runs@[i]).start == text.style_runs@[i].start
            &&& now.style_runs@[i].end == text.style_runs@[i].end
            &&& style_takes(
                property,
                value,
                facts,
                text.style_runs@[i].style,
                now.style_runs@[i].style,
            )
        } by {
            assert(wanted.style_runs@[i].style == crate::design_data::style_edited(
                text.style_runs@[i].style,
                style,
            ));
            if after != new {
                assert(text.alike(wanted));
                assert(text.style_runs@[i].alike(wanted.style_runs@[i]));
            }
            lemma_style_takes(
                property,
                value,
                facts,
                style,
                text.style_runs@[i].style,
                now.style_runs@[i].style,
            );
        }
    }
}

/// What cannot be kept of a text is not kept: an empty family, a size that is not
/// above zero, a line height other than a percentage, a letter spacing other than in
/// pixels.
pub proof fn lemma_unkept_text_refused(
    doc: Doc,
    id: NodeId,
    property: DesignProperty,
    value: DesignValue,
    facts: PropertyFacts,
    r: Option<PropertyEdit>,
)
    requires
        edits_property(doc, id, property, value, facts, r),
        names_text(property),
        !edits_text(property, value, facts),
    ensures
        r is None,
{
}

// ---------------------------------------------------------------------------
// Corners, combinations and layout modes
// ---------------------------------------------------------------------------

/// The radius and the radii of the corners of an outline or a group.
pub open spec fn corners_of(data: NodeData) -> (Option<Scalar>, Option<Quad>) {
    match data {
        NodeData::Vector(vector) => (vector.corner_radius, vector.corner_radii),
        NodeData::Group(group) => (group.corner_radius, group.corner_radii),
        _ => (None, None),
    }
}

/// Nothing but the corners differs.
pub open spec fn same_but_corners(a: NodeData, b: NodeData) -> bool {
    match (a, b) {
        (NodeData::Vector(a), NodeData::Vector(b)) => b == (VectorNode {
            corner_radius: b.corner_radius,
            corner_radii: b.corner_radii,
            ..a
        }),
        (NodeData::Group(a), NodeData::Group(b)) => b == (GroupNode {
            corner_radius: b.corner_radius,
            corner_radii: b.corner_radii,
            ..a
        }),
        _ => false,
    }
}

/// Corners that are made independent show what they showed: the radii they had, or
/// else the one radius at all four. Corners that are made one again take the radius
/// of the top left one, where it is above zero.
pub proof fn lemma_corners_land(
    doc: Doc,
    id: NodeId,
    independent: bool,
    facts: PropertyFacts,
    r: Option<PropertyEdit>,
)
    requires
        edits_property(
            doc,
            id,
            DesignProperty::IndependentCorners,
            DesignValue::Bool(independent),
            facts,
            r,
        ),
        *doc.content().nodes[id].data is Vector || *doc.content().nodes[id].data is Group,
    ensures
        is_operations(r),
        changes_only(doc, id, steps_of(r)),
        ({
            let before = doc.content().nodes[id];
            let after = afterwards(doc, steps_of(r)).nodes[id];
            let (radius, radii) = corners_of(*before.data);
            let (now, each) = corners_of(*after.data);
            &&& after == (CanvasNode { data: after.data, ..before })
            &&& same_but_corners(*before.data, *after.data)
            &&& each is Some <==> independent
            &&& independent ==> now == radius
            &&& independent && radii is Some ==> each == radii
            &&& independent && radii is None ==> {
                let all = match radius {
                    Some(radius) => radius,
                    None => Scalar { bits: 0 },
                };
                each == Some(Quad { first: all, second: all, third: all, fourth: all })
            }
            &&& !independent && radii is None ==> now == radius
            &&& !independent && radii is Some ==> if !radii->0.first.nan() && radii->0.first.rank()
                > 0 {
                now == Some(radii->0.first)
            } else {
                now is None
            }
        }),
{
    crate::operations::lemma_find_is_content(doc, id);
    let new = lemma_data_lands(
        doc,
        id,
        DataEdit::IndependentCorners(independent),
        steps_of(r),
    );
}

/// A combination takes the operation that is asked for, and nothing else changes.
pub proof fn lemma_combination_lands(
    doc: Doc,
    id: NodeId,
    op: crate::document::BooleanOp,
    facts: PropertyFacts,
    boolean: BooleanNode,
    r: Option<PropertyEdit>,
)
    requires
        edits_property(
            doc,
            id,
            DesignProperty::BooleanOperation,
            DesignValue::BooleanOperation(op),
            facts,
            r,
        ),
        *doc.content().nodes[id].data == NodeData::Boolean(boolean),
    ensures
        is_operations(r),
        changes_only(doc, id, steps_of(r)),
        ({
            let before = doc.content().nodes[id];
            let after = afterwards(doc, steps_of(r)).nodes[id];
            &&& after == (CanvasNode { data: after.data, ..before })
            &&& *after.data == NodeData::Boolean(BooleanNode { op: op, ..boolean })
        }),
{
    crate::operations::lemma_find_is_content(doc, id);
    let new = lemma_data_lands(doc, id, DataEdit::Boolean(op), steps_of(r));
}

/// A frame takes the layout mode that is asked for. A free frame has no layout; a
/// frame that has one keeps the rest of it; one that has none gets an empty one, and
/// the size it shows where it has no size of its own. A grid is not kept, and only
/// groups are laid out.
pub proof fn lemma_layout_mode_lands(
    doc: Doc,
    id: NodeId,
    mode: DesignLayoutMode,
    facts: PropertyFacts,
    r: Option<PropertyEdit>,
)
    requires
        edits_property(
            doc,
            id,
            DesignProperty::LayoutMode,
            DesignValue::LayoutMode(mode),
            facts,
            r,
        ),
    ensures
        is_operations(r) <==> *doc.content().nodes[id].data is Group && !(mode is Grid),
        r is Some ==> is_operations(r),
        is_operations(r) ==> changes_only(doc, id, steps_of(r)) && ({
            let before = doc.content().nodes[id];
            let after = afterwards(doc, steps_of(r)).nodes[id];
            let was = before.data->Group_0;
            &&& after == (CanvasNode { data: after.data, ..before })
            &&& *after.data matches NodeData::Group(now) && {
                &&& now == (GroupNode {
                    auto_layout: now.auto_layout,
                    local_size: now.local_size,
                    ..was
                })
                &&& mode is Free <==> now.auto_layout is None
                &&& mode is Horizontal <==> (now.auto_layout matches Some(layout)
                    && layout.mode is Horizontal)
                &&& (was.auto_layout matches Some(old) && now.auto_layout is Some)
                    ==> now.auto_layout == Some(
                    (AutoLayout { mode: now.auto_layout->0.mode, ..was.auto_layout->0 }),
                )
                &&& was.auto_layout is None && now.auto_layout is Some ==> {
                    &&& now.auto_layout->0.child_layout
                    &&& !now.auto_layout->0.wrap
                    &&& now.auto_layout->0.primary_align is Start
                    &&& now.auto_layout->0.counter_align is Start
                }
                &&& now.local_size == if !(mode is Free) && was.auto_layout is None
                    && was.local_size is None && was.clip_size is None {
                    facts.shown_size
                } else {
                    was.local_size
                }
            }
        }),
{
    crate::operations::lemma_find_is_content(doc, id);
    if is_operations(r) {
        let target = match mode {
            DesignLayoutMode::Horizontal => Some(LayoutMode::Horizontal),
            DesignLayoutMode::Vertical => Some(LayoutMode::Vertical),
            _ => None,
        };
        let new = lemma_data_lands(
            doc,
            id,
            DataEdit::Mode { mode: target, shown: facts.shown_size },
            steps_of(r),
        );
    }
}

// ---------------------------------------------------------------------------
// Sizing
// ---------------------------------------------------------------------------

/// The layout of the frame that a layer stands in.
pub open spec fn layout_around(content: Content, id: NodeId) -> Option<AutoLayout> {
    match content.nodes[id].parent {
        Some(parent) => if content.nodes.dom().contains(parent) {
            match *content.nodes[parent].data {
                NodeData::Group(group) => group.auto_layout,
                _ => None,
            }
        } else {
            None
        },
        None => None,
    }
}

/// The property that sizes a layer along one axis.
pub open spec fn sizing_property(horizontal: bool) -> DesignProperty {
    if horizontal {
        DesignProperty::HorizontalSizing
    } else {
        DesignProperty::VerticalSizing
    }
}

/// A layer that fills an axis of its frame grows along the layout, or stretches
/// across it; nothing else changes. Where there is no layout there is nothing to
/// fill.
pub proof fn lemma_filling_lands(
    doc: Doc,
    id: NodeId,
    horizontal: bool,
    facts: PropertyFacts,
    r: Option<PropertyEdit>,
)
    requires
        edits_property(
            doc,
            id,
            sizing_property(horizontal),
            DesignValue::SizingMode(SizingMode::Fill),
            facts,
            r,
        ),
    ensures
        r is None <==> layout_around(doc.content(), id) is None,
        layout_around(doc.content(), id) matches Some(layout) ==> ({
            let before = doc.content().nodes[id];
            let after = afterwards(doc, steps_of(r)).nodes[id];
            &&& is_operations(r)
            &&& changes_only(doc, id, steps_of(r))
            &&& after == (CanvasNode { layout_child: after.layout_child, ..before })
            &&& says(after).absolute == says(before).absolute
            &&& layout.child_layout ==> if horizontal == (layout.mode is Horizontal) {
                &&& says(after).grow.rank() == 0x3ff0_0000_0000_0000
                &&& !says(after).grow.nan()
                &&& says(after).align_self == says(before).align_self
            } else {
                &&& says(after).align_self == Some(CounterAlign::Stretch)
                &&& grows_alike(says(after).grow, says(before).grow)
            }
        }),
{
    crate::operations::lemma_find_is_content(doc, id);
    let before = doc.content();
    if let Some(parent) = before.nodes[id].parent {
        crate::operations::lemma_find_is_content(doc, parent);
    }
    lemma_two_steps(before, steps_of(r));
    assert(before.nodes.insert(id, before.nodes[id]) =~= before.nodes);
    let after = afterwards(doc, steps_of(r));
    assert(after.nodes =~= before.nodes.insert(id, after.nodes[id]));
}

/// What sizing itself makes of the data of a layer: a frame sizes the axis that is
/// asked for, a text fits its width only together with its height, and other layers
/// stay.
pub open spec fn sizes_itself(
    before: NodeData,
    after: NodeData,
    horizontal: bool,
    mode: SizingMode,
) -> bool {
    match before {
        NodeData::Group(group) => match group.auto_layout {
            Some(layout) => after matches NodeData::Group(now) && now == (GroupNode {
                auto_layout: now.auto_layout,
                ..group
            }) && (now.auto_layout matches Some(sized) && if horizontal == (
            layout.mode is Horizontal) {
                &&& sized == (AutoLayout { primary_sizing: sized.primary_sizing, ..layout })
                &&& sized.primary_sizing is Hug <==> mode is Hug
                &&& sized.primary_sizing is Fixed <==> mode is Fixed
            } else {
                &&& sized == (AutoLayout { counter_sizing: sized.counter_sizing, ..layout })
                &&& sized.counter_sizing is Hug <==> mode is Hug
                &&& sized.counter_sizing is Fixed <==> mode is Fixed
            }),
            None => after == before,
        },
        NodeData::Text(text) => after matches NodeData::Text(now) && now == (TextNode {
            auto_resize: now.auto_resize,
            ..text
        }) && {
            &&& mode is Hug && horizontal ==> now.auto_resize is WidthAndHeight
            &&& mode is Hug && !horizontal ==> if text.auto_resize is WidthAndHeight {
                now.auto_resize is WidthAndHeight
            } else {
                now.auto_resize is Height
            }
            &&& mode is Fixed && horizontal ==> if text.auto_resize is WidthAndHeight {
                now.auto_resize is Height
            } else {
                now.auto_resize is Fixed
            }
            &&& mode is Fixed && !horizontal ==> now.auto_resize is Fixed
        },
        _ => after == before,
    }
}

/// Both lists, one behind the other, change only one layer.
proof fn lemma_turns(content: Content, a: Seq<Operation>, b: Seq<Operation>)
    ensures
        crate::operations::all_applied(content, a + b) == crate::operations::all_applied(
            crate::operations::all_applied(content, a),
            b,
        ),
        crate::operations::carried(content, a + b) <==> crate::operations::carried(content, a)
            && crate::operations::carried(crate::operations::all_applied(content, a), b),
    decreases b.len(),
{
    if b.len() == 0 {
        assert(a + b =~= a);
    } else {
        lemma_turns(content, a, b.drop_last());
        assert((a + b).drop_last() =~= a + b.drop_last());
    }
}

/// Taking a filling back.
proof fn lemma_unfilled(doc: Doc, id: NodeId, along: bool, operations: Seq<Operation>)
    requires
        doc.well_formed(),
        doc.content().nodes.dom().contains(id),
        crate::design_data::edits_child(
            operations,
            doc,
            id,
            ChildEdit::Unfill { primary: along },
        ),
    ensures
        changes_only(doc, id, operations),
        ({
            let before = doc.content().nodes[id];
            let after = afterwards(doc, operations).nodes[id];
            &&& after == (CanvasNode { layout_child: after.layout_child, ..before })
            &&& says(after).absolute == says(before).absolute
            &&& laid_out(doc.content(), id) ==> if along {
                &&& says(after).grow.rank() == 0
                &&& says(after).align_self == says(before).align_self
            } else {
                &&& says(after).align_self != Some(CounterAlign::Stretch)
                &&& says(before).align_self != Some(CounterAlign::Stretch)
                    ==> says(after).align_self == says(before).align_self
                &&& grows_alike(says(after).grow, says(before).grow)
            }
        }),
{
    crate::operations::lemma_find_is_content(doc, id);
    let before = doc.content();
    if let Some(parent) = before.nodes[id].parent {
        crate::operations::lemma_find_is_content(doc, parent);
    }
    lemma_two_steps(before, operations);
    assert(before.nodes.insert(id, before.nodes[id]) =~= before.nodes);
    let after = afterwards(doc, operations);
    assert(after.nodes =~= before.nodes.insert(id, after.nodes[id]));
}

/// The layer's own sizing, in a document where nothing else of its data has changed.
proof fn lemma_sized_itself(
    doc: Doc,
    content: Content,
    id: NodeId,
    operations: Seq<Operation>,
    horizontal: bool,
    mode: SizingMode,
)
    requires
        doc.well_formed(),
        doc.content().nodes.dom().contains(id),
        content.nodes.dom().contains(id),
        content.nodes[id].id == id,
        content.nodes[id].data == doc.content().nodes[id].data,
        crate::design_properties::sized_by(
            operations,
            doc,
            doc.content().nodes[id],
            horizontal,
            mode,
        ),
        !(mode is Fill),
    ensures
        crate::operations::carried(content, operations),
        ({
            let before = content.nodes[id];
            let after = crate::operations::all_applied(content, operations);
            &&& after == (Content {
                nodes: content.nodes.insert(id, after.nodes[id]),
                ..content
            })
            &&& after.nodes[id] == (CanvasNode { data: after.nodes[id].data, ..before })
            &&& sizes_itself(*before.data, *after.nodes[id].data, horizontal, mode)
        }),
{
    crate::operations::lemma_find_is_content(doc, id);
    lemma_two_steps(content, operations);
    assert(content.nodes.insert(id, content.nodes[id]) =~= content.nodes);
    let after = crate::operations::all_applied(content, operations);
    assert(after.nodes =~= content.nodes.insert(id, after.nodes[id]));
}

/// A layer that hugs or is fixed along an axis no longer fills it, and sizes itself
/// there; nothing else changes.
pub proof fn lemma_own_sizing_lands(
    doc: Doc,
    id: NodeId,
    horizontal: bool,
    mode: SizingMode,
    facts: PropertyFacts,
    r: Option<PropertyEdit>,
)
    requires
        edits_property(
            doc,
            id,
            sizing_property(horizontal),
            DesignValue::SizingMode(mode),
            facts,
            r,
        ),
        !(mode is Fill),
    ensures
        is_operations(r),
        changes_only(doc, id, steps_of(r)),
        ({
            let before = doc.content().nodes[id];
            let after = afterwards(doc, steps_of(r)).nodes[id];
            &&& after == (CanvasNode {
                layout_child: after.layout_child,
                data: after.data,
                ..before
            })
            &&& sizes_itself(*before.data, *after.data, horizontal, mode)
            &&& says(after).absolute == says(before).absolute
            &&& layout_around(doc.content(), id) is None ==> after.layout_child
                == before.layout_child
            &&& (layout_around(doc.content(), id) matches Some(layout) && layout.child_layout)
                ==> if horizontal == (layout_around(doc.content(), id)->0.mode is Horizontal) {
                &&& says(after).grow.rank() == 0
                &&& says(after).align_self == says(before).align_self
            } else {
                &&& says(after).align_self != Some(CounterAlign::Stretch)
                &&& says(before).align_self != Some(CounterAlign::Stretch)
                    ==> says(after).align_self == says(before).align_self
                &&& grows_alike(says(after).grow, says(before).grow)
            }
        }),
{
    crate::operations::lemma_find_is_content(doc, id);
    let before = doc.content();
    if let Some(parent) = before.nodes[id].parent {
        crate::operations::lemma_find_is_content(doc, parent);
    }
    let node = before.nodes[id];
    let operations = steps_of(r);
    let child = match crate::design_data::layout_above(doc, id) {
        Some(above) => Some(
            ChildEdit::Unfill { primary: horizontal == (above.mode is Horizontal) },
        ),
        None => None,
    };
    let n = choose|n: int| #[trigger]
        crate::design_properties::sized_behind(operations, doc, node, child, horizontal, mode, n);
    let a = operations.take(n);
    let b = operations.skip(n);
    assert(operations =~= a + b);
    lemma_turns(before, a, b);
    let middle = crate::operations::all_applied(before, a);
    match child {
        Some(ChildEdit::Unfill { primary }) => {
            lemma_unfilled(doc, id, primary, a);
        },
        _ => {
            lemma_two_steps(before, a);
            assert(before.nodes.insert(id, node) =~= before.nodes);
        },
    }
    lemma_sized_itself(doc, middle, id, b, horizontal, mode);
    let after = afterwards(doc, operations);
    assert(after.nodes =~= before.nodes.insert(id, after.nodes[id]));
}

// ---------------------------------------------------------------------------
// Shapes
// ---------------------------------------------------------------------------

/// A shape is edited in what is asked for, drawn in the box that it has or else in
/// the rough one, and otherwise stays; a shape of another kind stays altogether.
pub proof fn lemma_shape_is_edited(
    doc: Doc,
    id: NodeId,
    property: DesignProperty,
    value: DesignValue,
    facts: PropertyFacts,
    vector: VectorNode,
    shape: crate::document::ParametricShape,
    r: Option<PropertyEdit>,
)
    requires
        edits_property(doc, id, property, value, facts, r),
        *doc.content().nodes[id].data == NodeData::Vector(vector),
        vector.parametric == Some(shape),
        vector.local_size is Some || facts.rough_size is Some,
        match property {
            DesignProperty::PolygonCount | DesignProperty::StarPointCount => value is Number
                || value is Integer,
            DesignProperty::StarInnerRadius | DesignProperty::ArcInnerRadius => value is Ratio,
            DesignProperty::ArcStartingAngle
            | DesignProperty::ArcSweep
            | DesignProperty::ArcEndingAngle => value is AngleRadians,
            _ => false,
        },
    ensures
        r matches Some(PropertyEdit::Shape { shape: now, size }) && {
            &&& size == if vector.local_size is Some {
                vector.local_size->0
            } else {
                facts.rough_size->0
            }
            &&& match shape {
                crate::document::ParametricShape::Polygon { points } => now matches
                    crate::document::ParametricShape::Polygon { points: edited } && (!(
                property is PolygonCount) ==> edited == points),
                crate::document::ParametricShape::Star { points, inner_ratio } => now matches
                    crate::document::ParametricShape::Star { points: edited, inner_ratio: inner }
                    && (!(property is StarPointCount) ==> edited == points) && (!(
                property is StarInnerRadius) ==> inner == inner_ratio) && (
                property is StarInnerRadius ==> ratio_takes(inner, value->Ratio_0)),
                crate::document::ParametricShape::Arc { start_rad, sweep_rad, inner_ratio } =>
                    now matches crate::document::ParametricShape::Arc {
                    start_rad: start,
                    sweep_rad: sweep,
                    inner_ratio: inner,
                } && start == (if property is ArcStartingAngle {
                    value->AngleRadians_0
                } else {
                    start_rad
                }) && sweep == (if property is ArcSweep {
                    value->AngleRadians_0
                } else if property is ArcEndingAngle {
                    facts.swept
                } else {
                    sweep_rad
                }) && (!(property is ArcInnerRadius) ==> inner == inner_ratio) && (
                property is ArcInnerRadius ==> ratio_takes(inner, value->Ratio_0)),
            }
        },
{
    crate::operations::lemma_find_is_content(doc, id);
}

/// A ratio is kept between nothing and all.
pub open spec fn ratio_takes(now: Scalar, asked: Scalar) -> bool {
    if asked.nan() {
        now == asked
    } else if asked.rank() < 0 {
        now.bits == 0
    } else if asked.rank() > 0x3ff0_0000_0000_0000 {
        now.bits == 0x3ff0_0000_0000_0000
    } else {
        now == asked
    }
}

// ---------------------------------------------------------------------------
// Edits of the host
// ---------------------------------------------------------------------------

/// Every corner is named clockwise from the top left, and a radius is at least zero.
pub proof fn lemma_corner_is_named(
    doc: Doc,
    id: NodeId,
    property: DesignProperty,
    radius: Scalar,
    facts: PropertyFacts,
    r: Option<PropertyEdit>,
)
    requires
        edits_property(doc, id, property, DesignValue::Number(radius), facts, r),
        property is CornerRadiusTopLeft || property is CornerRadiusTopRight
            || property is CornerRadiusBottomRight || property is CornerRadiusBottomLeft,
    ensures
        r matches Some(PropertyEdit::Corner { corner, radius: taken }) && takes(taken, radius) && (
        property is CornerRadiusTopLeft <==> corner == 0) && (property is CornerRadiusTopRight
            <==> corner == 1) && (property is CornerRadiusBottomRight <==> corner == 2) && (
        property is CornerRadiusBottomLeft <==> corner == 3),
{
}

/// The gap of a horizontal layout runs across the columns and its counter gap
/// across the rows; of a vertical layout the other way round. A frame without a
/// layout has no gap.
pub proof fn lemma_gap_runs_along(
    doc: Doc,
    id: NodeId,
    counter: bool,
    gap: Scalar,
    facts: PropertyFacts,
    r: Option<PropertyEdit>,
)
    requires
        edits_property(
            doc,
            id,
            (if counter {
                DesignProperty::CounterAxisGap
            } else {
                DesignProperty::Gap
            }),
            DesignValue::Number(gap),
            facts,
            r,
        ),
    ensures
        match *doc.content().nodes[id].data {
            NodeData::Group(group) => match group.auto_layout {
                Some(layout) => r == Some(
                    PropertyEdit::Gap { gap: gap, horizontal: layout.mode is Horizontal != counter },
                ),
                None => r is None,
            },
            _ => r is None,
        },
{
    crate::operations::lemma_find_is_content(doc, id);
}

/// A limit says whether it bounds the width or the height, and from below or above;
/// no number takes the limit away.
pub proof fn lemma_limit_is_named(
    doc: Doc,
    id: NodeId,
    property: DesignProperty,
    limit: Option<Scalar>,
    facts: PropertyFacts,
    r: Option<PropertyEdit>,
)
    requires
        edits_property(doc, id, property, DesignValue::OptionalNumber(limit), facts, r),
        property is MinWidth || property is MaxWidth || property is MinHeight
            || property is MaxHeight,
    ensures
        r matches Some(PropertyEdit::Limit { limit: bound, horizontal, minimum }) && bound == limit
            && (horizontal <==> property is MinWidth || property is MaxWidth) && (minimum
            <==> property is MinWidth || property is MinHeight),
{
}

/// The plain fields are handed to the host under their own names, with the number
/// as it is; an angle is handed on as an angle, and a smoothing ratio as a ratio.
pub proof fn lemma_field_is_named(
    doc: Doc,
    id: NodeId,
    property: DesignProperty,
    value: DesignValue,
    facts: PropertyFacts,
    r: Option<PropertyEdit>,
)
    requires
        edits_property(doc, id, property, value, facts, r),
        property is X || property is Y || property is Width || property is Height
            || property is Rotation || property is Opacity || property is CornerRadius
            || property is CornerSmoothing,
    ensures
        r matches Some(edit) ==> (edit matches PropertyEdit::Field { field, number } && {
            &&& field is X <==> property is X
            &&& field is Y <==> property is Y
            &&& field is Width <==> property is Width
            &&& field is Height <==> property is Height
            &&& field is Rotation <==> property is Rotation
            &&& field is Opacity <==> property is Opacity
            &&& field is CornerRadius <==> property is CornerRadius
            &&& field is CornerSmoothing <==> property is CornerSmoothing
            &&& match value {
                DesignValue::Number(plain) => number
                    == crate::design_properties::FieldNumber::Plain(plain),
                DesignValue::Integer(plain) => number
                    == crate::design_properties::FieldNumber::Plain(plain),
                DesignValue::AngleRadians(angle) => number
                    == crate::design_properties::FieldNumber::Degrees(angle) && property is Rotation,
                DesignValue::Ratio(ratio) => number
                    == crate::design_properties::FieldNumber::Hundredfold(ratio)
                    && property is CornerSmoothing,
                _ => false,
            }
        }),
        r is None <==> !(value is Number || value is Integer || value is AngleRadians
            && property is Rotation || value is Ratio && property is CornerSmoothing),
{
}

/// A padding on two sides says which, and clipping is handed on as it is.
pub proof fn lemma_paddings_are_named(
    doc: Doc,
    id: NodeId,
    padding: Scalar,
    clip: bool,
    facts: PropertyFacts,
    across: Option<PropertyEdit>,
    down: Option<PropertyEdit>,
    clipped: Option<PropertyEdit>,
)
    requires
        edits_property(
            doc,
            id,
            DesignProperty::PaddingHorizontal,
            DesignValue::Number(padding),
            facts,
            across,
        ),
        edits_property(
            doc,
            id,
            DesignProperty::PaddingVertical,
            DesignValue::Number(padding),
            facts,
            down,
        ),
        edits_property(
            doc,
            id,
            DesignProperty::ClipContent,
            DesignValue::Bool(clip),
            facts,
            clipped,
        ),
    ensures
        across == Some(PropertyEdit::Padding { padding: padding, horizontal: true }),
        down == Some(PropertyEdit::Padding { padding: padding, horizontal: false }),
        clipped == Some(PropertyEdit::ClipContent(clip)),
{
}

} // verus!
