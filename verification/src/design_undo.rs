//! Laws: what the inspector's edits do can be taken back.

use vstd::prelude::*;

use crate::design_data::{ChildEdit, DataEdit};
use crate::design_effects::{EffectKind, EffectProperty, EffectRef, EffectValue};
use crate::design_lists::ListEdit;
use crate::design_paints::{PaintEditValue, PaintOutcome, PaintPayload};
use crate::design_properties::{PropertyEdit, PropertyFacts};
use crate::design_values::{DesignProperty, DesignValue, SizingMode};
use crate::document::{CanvasNode, Doc, Shadow};
use crate::ids::NodeId;
use crate::operations::Operation;
use crate::paint::{Color, Fill, Gradient, Stroke};
use crate::scalar::Scalar;

verus! {

/// Every operation changes the layer and records what it replaces, and no two
/// write the same part of it.
pub open spec fn records_layer(doc: Doc, id: NodeId, operations: Seq<Operation>) -> bool {
    &&& operations.len() > 0 ==> doc.content().nodes.dom().contains(id)
    &&& forall|i: int|
        0 <= i < operations.len() ==> crate::operations::changes(#[trigger] operations[i]) == Some(
            id,
        ) && crate::operations::recorded(doc.content(), operations[i])
    &&& forall|i: int, j: int|
        0 <= i < j < operations.len() ==> crate::operations::written_part(
            #[trigger] operations[i],
        ) != crate::operations::written_part(#[trigger] operations[j])
}

/// Edits that record what they replace in one layer can be taken back.
pub proof fn lemma_layer_reversible(doc: Doc, id: NodeId, operations: Seq<Operation>)
    requires
        doc.well_formed(),
        records_layer(doc, id, operations),
    ensures
        crate::operations::reversible(doc.content(), operations),
{
    crate::operations::lemma_doc_filed(doc);
    assert forall|i: int, j: int| 0 <= i < j < operations.len() implies crate::operations::apart(
        #[trigger] operations[i],
        #[trigger] operations[j],
    ) by {
        assert(crate::operations::changes(operations[i]) == Some(id));
        assert(crate::operations::changes(operations[j]) == Some(id));
    }
    crate::operations::lemma_independent_reversible(doc.content(), operations);
}

proof fn lemma_data_recorded(doc: Doc, id: NodeId, edit: DataEdit, operations: Seq<Operation>)
    requires
        doc.well_formed(),
        crate::design_data::edits_data(operations, doc, id, edit),
    ensures
        records_layer(doc, id, operations),
        operations.len() <= 1,
        forall|i: int|
            0 <= i < operations.len() ==> crate::operations::written_part(
                #[trigger] operations[i],
            ) == 12,
{
    crate::operations::lemma_find_is_content(doc, id);
}

proof fn lemma_child_recorded(doc: Doc, id: NodeId, edit: ChildEdit, operations: Seq<Operation>)
    requires
        doc.well_formed(),
        crate::design_data::edits_child(operations, doc, id, edit),
    ensures
        records_layer(doc, id, operations),
        operations.len() <= 1,
        forall|i: int|
            0 <= i < operations.len() ==> crate::operations::written_part(
                #[trigger] operations[i],
            ) == 9,
{
    crate::operations::lemma_find_is_content(doc, id);
}

proof fn lemma_sized_recorded(
    doc: Doc,
    node: CanvasNode,
    child: Option<ChildEdit>,
    horizontal: bool,
    mode: SizingMode,
    operations: Seq<Operation>,
)
    requires
        doc.well_formed(),
        crate::scene::find(doc.nodes@, node.id) == Some(node),
        crate::design_properties::sized(operations, doc, node, child, horizontal, mode),
    ensures
        records_layer(doc, node.id, operations),
{
    let n = choose|n: int| #[trigger]
        crate::design_properties::sized_behind(
            operations,
            doc,
            node,
            child,
            horizontal,
            mode,
            n,
        );
    let lead = operations.take(n);
    let rest = operations.skip(n);
    if let Some(edit) = child {
        lemma_child_recorded(doc, node.id, edit, lead);
    }
    lemma_own_sizing_recorded(doc, node, horizontal, mode, rest);
    crate::operations::lemma_find_is_content(doc, node.id);
    assert forall|i: int| 0 <= i < operations.len() implies crate::operations::changes(
        #[trigger] operations[i],
    ) == Some(node.id) && crate::operations::recorded(doc.content(), operations[i]) by {
        if i < n {
            assert(lead[i] == operations[i]);
        } else {
            assert(rest[i - n] == operations[i]);
        }
    }
    assert forall|i: int, j: int| 0 <= i < j < operations.len() implies
        crate::operations::written_part(#[trigger] operations[i])
        != crate::operations::written_part(#[trigger] operations[j]) by {
        assert(i < n);
        assert(lead[i] == operations[i]);
        assert(j >= n);
        assert(rest[j - n] == operations[j]);
    }
}

proof fn lemma_own_sizing_recorded(
    doc: Doc,
    node: CanvasNode,
    horizontal: bool,
    mode: SizingMode,
    operations: Seq<Operation>,
)
    requires
        doc.well_formed(),
        crate::design_properties::sized_by(operations, doc, node, horizontal, mode),
    ensures
        records_layer(doc, node.id, operations),
        operations.len() <= 1,
        forall|i: int|
            0 <= i < operations.len() ==> crate::operations::written_part(
                #[trigger] operations[i],
            ) == 12,
{
    if operations.len() > 0 {
        let edit = own_edit(node, horizontal, mode)->0;
        lemma_data_recorded(doc, node.id, edit, operations);
    }
}

pub open spec fn own_edit(node: CanvasNode, horizontal: bool, mode: SizingMode) -> Option<DataEdit> {
    crate::design_properties::own_sizing(*node.data, horizontal, mode)
}

proof fn lemma_blend_recorded(
    doc: Doc,
    id: NodeId,
    mode: crate::design_values::DesignBlendMode,
    operations: Seq<Operation>,
)
    requires
        doc.well_formed(),
        operations == (match crate::scene::find(doc.nodes@, id) {
            Some(node) => crate::design_properties::blend_operations_of(node, mode),
            None => Seq::empty(),
        }),
    ensures
        records_layer(doc, id, operations),
{
    crate::operations::lemma_find_is_content(doc, id);
}

/// Whatever property of a layer is edited, the edit can be taken back.
pub proof fn lemma_property_reversible(
    doc: Doc,
    id: NodeId,
    property: DesignProperty,
    value: DesignValue,
    facts: PropertyFacts,
    operations: Vec<Operation>,
)
    requires
        doc.well_formed(),
        crate::design_properties::property_outcome(
            doc,
            id,
            property,
            value,
            facts,
            Some(PropertyEdit::Operations(operations)),
        ),
    ensures
        crate::operations::reversible(doc.content(), operations@),
{
    let r = Some(PropertyEdit::Operations(operations));
    crate::operations::lemma_find_is_content(doc, id);
    crate::scene::lemma_find_has_id(doc.nodes@, id);
    if operations@.len() > 0 {
        if crate::design_properties::is_stroke_property(property) {
            let edit = choose|edit: Option<crate::design_data::StrokeEdit>| #[trigger]
                crate::design_properties::stroke_edit_of(property, value, facts, edit)
                    && crate::design_properties::data_outcome(
                    doc,
                    id,
                    stroke_data(edit),
                    r,
                );
            lemma_data_recorded(doc, id, stroke_data(edit)->0, operations@);
        } else if crate::design_properties::is_layout_property(property) {
            let edit = crate::design_properties::layout_edit_of(
                crate::design_properties::layout_of(doc, id),
                property,
                value,
            );
            lemma_data_recorded(doc, id, DataEdit::Layout(edit->0), operations@);
        } else if crate::design_properties::is_child_property(property) {
            let edit = crate::design_properties::child_edit_of(property, value);
            lemma_child_recorded(doc, id, edit->0, operations@);
        } else if crate::design_properties::is_text_property(property) {
            let edit = crate::design_properties::text_edit_of(property, value, facts);
            lemma_data_recorded(doc, id, DataEdit::Text(edit->0), operations@);
        } else {
            lemma_other_recorded(doc, id, property, value, facts, operations);
        }
    }
    lemma_layer_reversible(doc, id, operations@);
}

pub open spec fn stroke_data(edit: Option<crate::design_data::StrokeEdit>) -> Option<DataEdit> {
    match edit {
        Some(edit) => Some(DataEdit::Strokes(edit)),
        None => None,
    }
}

proof fn lemma_other_recorded(
    doc: Doc,
    id: NodeId,
    property: DesignProperty,
    value: DesignValue,
    facts: PropertyFacts,
    operations: Vec<Operation>,
)
    requires
        doc.well_formed(),
        crate::design_properties::other_outcome(
            doc,
            id,
            property,
            value,
            facts,
            Some(PropertyEdit::Operations(operations)),
        ),
        operations@.len() > 0,
    ensures
        records_layer(doc, id, operations@),
{
    crate::operations::lemma_find_is_content(doc, id);
    crate::scene::lemma_find_has_id(doc.nodes@, id);
    match (property, value) {
        (DesignProperty::IndependentCorners, DesignValue::Bool(independent)) => {
            lemma_data_recorded(doc, id, DataEdit::IndependentCorners(independent), operations@);
        },
        (DesignProperty::BooleanOperation, DesignValue::BooleanOperation(op)) => {
            lemma_data_recorded(doc, id, DataEdit::Boolean(op), operations@);
        },
        (DesignProperty::BlendMode, DesignValue::BlendMode(mode)) => {
            lemma_blend_recorded(doc, id, mode, operations@);
        },
        (DesignProperty::LayoutMode, DesignValue::LayoutMode(mode)) => {
            let target = crate::design_properties::mode_stored(mode)->0;
            lemma_data_recorded(
                doc,
                id,
                DataEdit::Mode { mode: target, shown: facts.shown_size },
                operations@,
            );
        },
        (DesignProperty::HorizontalSizing, DesignValue::SizingMode(mode)) => {
            lemma_sizing_recorded(doc, id, true, mode, operations);
        },
        (DesignProperty::VerticalSizing, DesignValue::SizingMode(mode)) => {
            lemma_sizing_recorded(doc, id, false, mode, operations);
        },
        _ => {},
    }
}

proof fn lemma_sizing_recorded(
    doc: Doc,
    id: NodeId,
    horizontal: bool,
    mode: SizingMode,
    operations: Vec<Operation>,
)
    requires
        doc.well_formed(),
        crate::design_properties::sizing_outcome(doc, id, horizontal, mode, Some(operations)),
    ensures
        records_layer(doc, id, operations@),
{
    crate::scene::lemma_find_has_id(doc.nodes@, id);
    let node = crate::scene::find(doc.nodes@, id)->0;
    match crate::design_data::layout_above(doc, id) {
        Some(above) => {
            let primary = horizontal == (above.mode is Horizontal);
            if mode is Fill {
                lemma_child_recorded(
                    doc,
                    id,
                    ChildEdit::Fill { primary: primary },
                    operations@,
                );
            } else {
                lemma_sized_recorded(
                    doc,
                    node,
                    Some(ChildEdit::Unfill { primary: primary }),
                    horizontal,
                    mode,
                    operations@,
                );
            }
        },
        None => {
            lemma_sized_recorded(doc, node, None, horizontal, mode, operations@);
        },
    }
}

// ---------------------------------------------------------------------------
// Paints
// ---------------------------------------------------------------------------

proof fn lemma_repaint_recorded(
    doc: Doc,
    id: NodeId,
    is_stroke: bool,
    index: usize,
    fill: Fill,
    operations: Seq<Operation>,
)
    requires
        doc.well_formed(),
        crate::design_paints::repaint_outcome(doc, id, is_stroke, index, fill, operations),
    ensures
        records_layer(doc, id, operations),
{
    crate::operations::lemma_find_is_content(doc, id);
}

proof fn lemma_payload_recorded(
    doc: Doc,
    id: NodeId,
    is_stroke: bool,
    index: usize,
    payload: PaintPayload,
    fraction: Scalar,
    operations: Seq<Operation>,
)
    requires
        doc.well_formed(),
        crate::design_paints::payload_outcome(
            doc,
            id,
            is_stroke,
            index,
            payload,
            fraction,
            operations,
        ),
    ensures
        records_layer(doc, id, operations),
{
    if operations.len() > 0 {
        if payload is Solid && crate::design_paints::paints_glyphs(doc, id, is_stroke) {
            lemma_data_recorded(
                doc,
                id,
                DataEdit::Text(
                    crate::design_data::TextEdit::Style(
                        crate::design_data::StyleEdit::Color(payload->Solid_0),
                    ),
                ),
                operations,
            );
        } else {
            let before = crate::design_paints::layer_paint(doc, id, is_stroke, index)->0;
            let fill = choose|fill: Option<Fill>| #[trigger]
                crate::design_paints::payload_fill(doc, id, before, payload, fraction, fill) && (
                match fill {
                    Some(fill) => crate::design_paints::repaint_outcome(
                        doc,
                        id,
                        is_stroke,
                        index,
                        fill,
                        operations,
                    ),
                    None => operations.len() == 0,
                });
            lemma_repaint_recorded(doc, id, is_stroke, index, fill->0, operations);
        }
    }
}

proof fn lemma_stops_recorded(
    doc: Doc,
    id: NodeId,
    is_stroke: bool,
    index: usize,
    value: PaintEditValue,
    operations: Seq<Operation>,
)
    requires
        doc.well_formed(),
        crate::design_paints::stops_outcome(doc, id, is_stroke, index, value, operations),
    ensures
        records_layer(doc, id, operations),
{
    if operations.len() > 0 {
        let before = crate::design_paints::layer_paint(doc, id, is_stroke, index)->0;
        let gradient = before->Gradient_gradient;
        let stops = crate::design_paints::stops_edited(gradient.stops@, value)->0;
        let fill = choose|fill: Fill| #[trigger]
            crate::design_paints::lays_gradient(fill, before, gradient.geometry, stops)
                && crate::design_paints::repaint_outcome(
                doc,
                id,
                is_stroke,
                index,
                fill,
                operations,
            );
        lemma_repaint_recorded(doc, id, is_stroke, index, fill, operations);
    }
}

proof fn lemma_run_recorded(
    doc: Doc,
    id: NodeId,
    is_stroke: bool,
    index: usize,
    facts: crate::design_paints::GradientFacts,
    operations: Seq<Operation>,
)
    requires
        doc.well_formed(),
        crate::design_paints::run_outcome(doc, id, is_stroke, index, facts, operations),
    ensures
        records_layer(doc, id, operations),
{
    if operations.len() > 0 {
        let before = crate::design_paints::layer_paint(doc, id, is_stroke, index)->0;
        let gradient = before->Gradient_gradient;
        let blend = before->Gradient_blend;
        let built = choose|built: Option<Gradient>| #[trigger]
            crate::design_paints::gradient_built(gradient.stops@, facts, built) && (match built {
                Some(run) => crate::design_paints::repaint_outcome(
                    doc,
                    id,
                    is_stroke,
                    index,
                    Fill::Gradient { gradient: run, blend: blend },
                    operations,
                ),
                None => operations.len() == 0,
            });
        lemma_repaint_recorded(
            doc,
            id,
            is_stroke,
            index,
            Fill::Gradient { gradient: built->0, blend: blend },
            operations,
        );
    }
}

/// Whatever is done to a paint, the edit can be taken back.
pub proof fn lemma_paint_reversible(
    doc: Doc,
    id: NodeId,
    is_stroke: bool,
    index: usize,
    value: PaintEditValue,
    fraction: Scalar,
    operations: Vec<Operation>,
)
    requires
        doc.well_formed(),
        crate::design_paints::paint_edit_outcome(
            doc,
            id,
            is_stroke,
            index,
            value,
            fraction,
            PaintOutcome::Operations(operations),
        ),
    ensures
        crate::operations::reversible(doc.content(), operations@),
{
    let list = operations@;
    match value {
        PaintEditValue::Opacity { alpha, .. } => {
            if crate::design_paints::paints_glyphs(doc, id, is_stroke) {
                lemma_data_recorded(
                    doc,
                    id,
                    DataEdit::Text(
                        crate::design_data::TextEdit::Style(
                            crate::design_data::StyleEdit::Alpha(alpha),
                        ),
                    ),
                    list,
                );
            } else {
                lemma_stops_recorded(doc, id, is_stroke, index, value, list);
            }
        },
        PaintEditValue::Color(color) => {
            lemma_payload_recorded(
                doc,
                id,
                is_stroke,
                index,
                PaintPayload::Solid(color),
                fraction,
                list,
            );
        },
        PaintEditValue::BlendMode(blend) => {
            if crate::design_paints::paints_glyphs(doc, id, is_stroke) {
                lemma_blend_recorded(doc, id, crate::design_values::blend_shown(blend), list);
            } else if list.len() > 0 {
                let before = crate::design_paints::layer_paint(doc, id, is_stroke, index)->0;
                lemma_repaint_recorded(doc, id, is_stroke, index, before.blended(blend), list);
            }
        },
        PaintEditValue::Payload(payload) => {
            lemma_payload_recorded(doc, id, is_stroke, index, payload, fraction, list);
        },
        PaintEditValue::ModelEdit(payload) => {
            if list.len() > 0 {
                lemma_payload_recorded(doc, id, is_stroke, index, payload->0, fraction, list);
            }
        },
        PaintEditValue::GradientRun(facts) => {
            lemma_run_recorded(doc, id, is_stroke, index, facts, list);
        },
        _ => {
            lemma_stops_recorded(doc, id, is_stroke, index, value, list);
        },
    }
    lemma_layer_reversible(doc, id, list);
}

// ---------------------------------------------------------------------------
// Effects and lists
// ---------------------------------------------------------------------------

/// Whatever is done to an effect, the edit can be taken back.
pub proof fn lemma_effect_reversible(
    doc: Doc,
    id: NodeId,
    reference: EffectRef,
    property: EffectProperty,
    value: EffectValue,
    shadow: Shadow,
    operations: Vec<Operation>,
)
    requires
        doc.well_formed(),
        crate::design_effects::effect_edit_outcome(
            doc,
            id,
            reference,
            property,
            value,
            shadow,
            Some(operations),
        ),
    ensures
        crate::operations::reversible(doc.content(), operations@),
{
    crate::operations::lemma_find_is_content(doc, id);
    assert(records_layer(doc, id, operations@));
    lemma_layer_reversible(doc, id, operations@);
}

/// Adding an effect can be taken back.
pub proof fn lemma_effect_add_reversible(
    doc: Doc,
    id: NodeId,
    kind: EffectKind,
    shadow: Shadow,
    radius: Scalar,
    operations: Seq<Operation>,
)
    requires
        doc.well_formed(),
        crate::design_lists::effect_add_outcome(doc, id, kind, shadow, radius, operations),
    ensures
        crate::operations::reversible(doc.content(), operations),
{
    crate::operations::lemma_find_is_content(doc, id);
    lemma_layer_reversible(doc, id, operations);
}

/// Removing an effect can be taken back.
pub proof fn lemma_effect_remove_reversible(
    doc: Doc,
    id: NodeId,
    reference: EffectRef,
    operations: Seq<Operation>,
)
    requires
        doc.well_formed(),
        crate::design_lists::effect_remove_outcome(doc, id, reference, operations),
    ensures
        crate::operations::reversible(doc.content(), operations),
{
    crate::operations::lemma_find_is_content(doc, id);
    lemma_layer_reversible(doc, id, operations);
}

/// Adding, moving and removing strokes can be taken back.
pub proof fn lemma_strokes_reversible(
    doc: Doc,
    id: NodeId,
    edit: ListEdit,
    new: Stroke,
    operations: Seq<Operation>,
)
    requires
        doc.well_formed(),
        crate::design_lists::stroke_list_outcome(doc, id, edit, new, operations),
    ensures
        crate::operations::reversible(doc.content(), operations),
{
    crate::operations::lemma_find_is_content(doc, id);
    lemma_layer_reversible(doc, id, operations);
}

/// Moving a fill can be taken back.
pub proof fn lemma_fills_reversible(
    doc: Doc,
    id: NodeId,
    from: usize,
    to: usize,
    operations: Seq<Operation>,
)
    requires
        doc.well_formed(),
        crate::design_lists::fill_move_outcome(doc, id, from, to, operations),
    ensures
        crate::operations::reversible(doc.content(), operations),
{
    crate::operations::lemma_find_is_content(doc, id);
    lemma_layer_reversible(doc, id, operations);
}

/// Another background of a page can be taken back.
pub proof fn lemma_background_reversible(
    doc: Doc,
    root: NodeId,
    color: Color,
    operations: Seq<Operation>,
)
    requires
        doc.well_formed(),
        crate::design_lists::background_outcome(doc, root, color, operations),
    ensures
        crate::operations::reversible(doc.content(), operations),
{
    crate::operations::lemma_find_is_content(doc, root);
    lemma_layer_reversible(doc, root, operations);
}

} // verus!
