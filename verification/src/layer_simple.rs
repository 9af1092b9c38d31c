//! The layer commands that need no picker: masks, flips, conversions, resets,
//! components, flattening and outlines. What takes geometry to compute, and
//! what the host builds, comes in as facts.

use std::sync::Arc;

use serde_json::Value;
use vstd::prelude::*;
use vstd::string::*;

use crate::document::{CanvasNode, Doc, GroupNode, InstanceNode, LayoutMode, NodeData, Transform};
use crate::ids::NodeId;
use crate::layer_components::{flatten, outline_strokes, FlattenFacts, OutlineFacts};
use crate::layer_context_ops::{
    auto_layout, editable, is_component_root, replace_data, targets, Grouped, LayerAction,
    LayoutFacts,
};
use crate::layer_errors::LayerError;
use crate::meta::{copy_meta, insert_text, object_or_empty, remove_member};
use crate::operations::{extend, Operation};
use crate::paint::Size;
use crate::scalar::Scalar;

verus! {

/// The box that a layer shows in its own coordinates.
#[derive(Clone, Copy, Debug, PartialEq, Eq, Structural)]
pub struct LocalBox {
    pub min_x: Scalar,
    pub min_y: Scalar,
    pub size: Size,
}

/// What the host measures and prepares for a command.
#[derive(Debug, PartialEq)]
pub struct SimpleFacts {
    /// Roots of the selection that may be edited.
    pub selection_roots: Vec<NodeId>,
    /// Some target shows bounds on the page.
    pub selection_bounds: bool,
    /// The transform of every target, mirrored about the center of all.
    pub reflected: Vec<Option<Transform>>,
    /// The box that the layer shows.
    pub local_box: Option<LocalBox>,
    /// The layer's transform, moved to the corner of that box.
    pub shifted: Transform,
    /// The transform of every child, moved back by as much.
    pub shifted_children: Vec<Transform>,
    /// The size of the main component of an instance.
    pub master_size: Option<Size>,
    /// The operations that make a component of the layer, or of the new frame.
    pub component: Vec<Operation>,
    /// The targets in a frame named like the layer.
    pub framed: Result<Grouped, LayerError>,
    /// The targets in a group.
    pub grouped: Result<Grouped, LayerError>,
    pub flatten: FlattenFacts,
    /// One entry for every target.
    pub outlines: Vec<OutlineFacts>,
    pub layout: LayoutFacts,
}

/// Commands that go to all targets.
pub open spec fn covers_targets(action: LayerAction) -> bool {
    action is FlipHorizontal || action is FlipVertical || action is CreateComponent
        || action is AddAutoLayout || action is Flatten || action is OutlineStroke
}

// ---------------------------------------------------------------------------
// Flips
// ---------------------------------------------------------------------------

/// One mirrored transform for every layer, or the first thing in the way.
pub open spec fn flips(
    nodes: Seq<CanvasNode>,
    ids: Seq<NodeId>,
    reflected: Seq<Option<Transform>>,
) -> Result<Seq<Operation>, LayerError>
    decreases ids.len(),
{
    if ids.len() == 0 {
        Ok(Seq::empty())
    } else {
        let at = ids.len() - 1;
        match flips(nodes, ids.drop_last(), reflected) {
            Err(error) => Err(error),
            Ok(front) => if at >= reflected.len() || reflected[at] is None {
                Err(LayerError::NoWorldTransform)
            } else if !reflected[at]->0.finite() {
                Err(LayerError::SingularParent)
            } else {
                Ok(
                    front.push(
                        Operation::SetTransform {
                            id: ids[at],
                            old: crate::scene::find(nodes, ids[at])->0.transform,
                            new: reflected[at]->0,
                        },
                    ),
                )
            },
        }
    }
}

proof fn lemma_flips_stop(
    nodes: Seq<CanvasNode>,
    ids: Seq<NodeId>,
    reflected: Seq<Option<Transform>>,
    n: int,
)
    requires
        0 <= n <= ids.len(),
        flips(nodes, ids.take(n), reflected) is Err,
    ensures
        flips(nodes, ids, reflected) == flips(nodes, ids.take(n), reflected),
    decreases ids.len() - n,
{
    if n == ids.len() {
        assert(ids.take(n) =~= ids);
    } else {
        assert(ids.take(n + 1).drop_last() =~= ids.take(n));
        lemma_flips_stop(nodes, ids, reflected, n + 1);
    }
}

fn flip(doc: &Doc, ids: &Vec<NodeId>, reflected: &Vec<Option<Transform>>) -> (r: Result<
    Vec<Operation>,
    LayerError,
>)
    requires
        !crate::layer_context_ops::any_locked(*doc, ids@),
    ensures
        crate::layer_moves::outcome_of(r) == flips(doc.nodes@, ids@, reflected@),
{
    let mut operations: Vec<Operation> = Vec::new();
    let mut i: usize = 0;
    assert(ids@.take(0) =~= Seq::<NodeId>::empty());
    assert(operations@ =~= Seq::<Operation>::empty());
    while i < ids.len()
        invariant
            i <= ids@.len(),
            !crate::layer_context_ops::any_locked(*doc, ids@),
            flips(doc.nodes@, ids@.take(i as int), reflected@) == Ok::<Seq<Operation>, LayerError>(
                operations@,
            ),
        decreases ids@.len() - i,
    {
        proof {
            assert(ids@.take(i + 1).drop_last() =~= ids@.take(i as int));
            assert(crate::layer_context_ops::can_edit(*doc, ids@[i as int]));
        }
        if i >= reflected.len() || reflected[i].is_none() {
            proof {
                lemma_flips_stop(doc.nodes@, ids@, reflected@, i + 1);
            }
            return Err(LayerError::NoWorldTransform);
        }
        if let (Some(node), Some(new)) = (doc.get(ids[i]), reflected[i]) {
            if !new.is_finite() {
                proof {
                    lemma_flips_stop(doc.nodes@, ids@, reflected@, i + 1);
                }
                return Err(LayerError::SingularParent);
            }
            operations.push(
                Operation::SetTransform { id: ids[i], old: node.transform, new },
            );
        }
        i = i + 1;
    }
    assert(ids@.take(ids@.len() as int) =~= ids@);
    Ok(operations)
}

// ---------------------------------------------------------------------------
// Frames and sections
// ---------------------------------------------------------------------------

/// The box that a conversion goes by.
pub open spec fn conversion_box(shown: Option<LocalBox>) -> LocalBox {
    match shown {
        Some(shown) => shown,
        None => LocalBox {
            min_x: Scalar::of(crate::scalar::ZERO),
            min_y: Scalar::of(crate::scalar::ZERO),
            size: Size {
                width: Scalar::of(crate::scalar::HUNDRED),
                height: Scalar::of(crate::scalar::HUNDRED),
            },
        },
    }
}

/// The group as a frame or as a section. Without a size of its own it takes the
/// box that it shows; a section neither clips nor lays out.
pub open spec fn converted(group: GroupNode, shown: Option<LocalBox>, section: bool) -> GroupNode {
    let local_size = if group.clip_size is None {
        Some(conversion_box(shown).size)
    } else {
        group.local_size
    };
    if section {
        GroupNode {
            local_size: if group.clip_size is Some {
                group.clip_size
            } else {
                local_size
            },
            clip_size: None,
            auto_layout: None,
            ..group
        }
    } else {
        GroupNode {
            local_size: local_size,
            clip_size: if group.clip_size is None {
                local_size
            } else {
                group.clip_size
            },
            ..group
        }
    }
}

/// The contents move when the box does not start at the origin.
pub open spec fn contents_move(group: GroupNode, shown: Option<LocalBox>) -> bool {
    let shown = conversion_box(shown);
    group.clip_size is None && (!shown.min_x.same(Scalar::of(crate::scalar::ZERO))
        || !shown.min_y.same(Scalar::of(crate::scalar::ZERO)))
}

/// The metadata says what the group has become, and keeps all else; a frame
/// also forgets that it once clipped.
pub open spec fn says_kind(old: Value, new: Value, section: bool) -> bool {
    let texts = crate::meta::object_texts(old);
    let numbers = crate::meta::object_numbers(old).remove("fanta_kind"@);
    let flags = crate::meta::object_flags(old).remove("fanta_kind"@);
    let others = crate::meta::object_others(old).remove("fanta_kind"@);
    let names = crate::meta::object_names(old).insert("fanta_kind"@);
    &&& crate::meta::json_object(new)
    &&& if section {
        &&& crate::meta::json_texts(new) == texts.insert("fanta_kind"@, "section"@)
        &&& crate::meta::json_numbers(new) == numbers
        &&& crate::meta::json_flags(new) == flags
        &&& crate::meta::json_others(new) == others
        &&& crate::meta::json_names(new) == names
    } else {
        &&& crate::meta::json_texts(new) == texts.insert("fanta_kind"@, "frame"@).remove(
            "clip_content"@,
        )
        &&& crate::meta::json_numbers(new) == numbers.remove("clip_content"@)
        &&& crate::meta::json_flags(new) == flags.remove("clip_content"@)
        &&& crate::meta::json_others(new) == others.remove("clip_content"@)
        &&& crate::meta::json_names(new) == names.remove("clip_content"@)
    }
}

/// The moves that keep the contents in place.
pub open spec fn conversion_moves(
    node: CanvasNode,
    kids: Seq<CanvasNode>,
    facts: SimpleFacts,
) -> Seq<Operation> {
    seq![Operation::SetTransform { id: node.id, old: node.transform, new: facts.shifted }]
        + Seq::new(
        kids.len(),
        |k: int|
            Operation::SetTransform {
                id: kids[k].id,
                old: kids[k].transform,
                new: facts.shifted_children@[k],
            },
    )
}

/// The operations that turn a group into a frame or a section.
pub open spec fn converts(
    operations: Seq<Operation>,
    doc: Doc,
    node: CanvasNode,
    facts: SimpleFacts,
    section: bool,
) -> bool {
    *node.data matches NodeData::Group(group) && {
        let kids = crate::scene::children(doc.nodes@, Some(node.id));
        let lead = if contents_move(group, facts.local_box) {
            conversion_moves(node, kids, facts)
        } else {
            Seq::empty()
        };
        &&& operations.len() == lead.len() + 2
        &&& operations.take(lead.len() as int) == lead
        &&& crate::layer_context_ops::replaces(
            operations[lead.len() as int],
            node,
            NodeData::Group(converted(group, facts.local_box, section)),
        )
        &&& operations[lead.len() as int + 1] matches Operation::SetMeta { id, old, new } && id == node.id
            && old == node.meta && says_kind(node.meta, new, section)
    }
}

fn conversion_moves_of(
    doc: &Doc,
    node: &CanvasNode,
    facts: &SimpleFacts,
) -> (operations: Vec<Operation>)
    requires
        doc.well_formed(),
        crate::scene::children(doc.nodes@, Some(node.id)).len() <= facts.shifted_children@.len(),
    ensures
        operations@ == conversion_moves(
            *node,
            crate::scene::children(doc.nodes@, Some(node.id)),
            *facts,
        ),
{
    let ghost kids = crate::scene::children(doc.nodes@, Some(node.id));
    let mut operations: Vec<Operation> = Vec::new();
    operations.push(
        Operation::SetTransform { id: node.id, old: node.transform, new: facts.shifted },
    );
    let children = doc.children_of(Some(node.id));
    let mut i: usize = 0;
    while i < children.len()
        invariant
            i <= children@.len(),
            doc.well_formed(),
            kids == crate::scene::children(doc.nodes@, Some(node.id)),
            kids.len() <= facts.shifted_children@.len(),
            children@ == crate::scene::ids_of(kids),
            operations@.len() == i + 1,
            operations@ == conversion_moves(*node, kids, *facts).take(i + 1),
        decreases children@.len() - i,
    {
        let ghost before = operations@;
        proof {
            crate::content_walk::lemma_child_found(*doc, Some(node.id), i as int);
            assert(children@[i as int] == kids[i as int].id);
        }
        if let Some(child) = doc.get(children[i]) {
            operations.push(
                Operation::SetTransform {
                    id: child.id,
                    old: child.transform,
                    new: facts.shifted_children[i],
                },
            );
        }
        assert(operations@ =~= conversion_moves(*node, kids, *facts).take(i + 2));
        i = i + 1;
    }
    assert(operations@ =~= conversion_moves(*node, kids, *facts));
    operations
}

fn convert(
    doc: &Doc,
    node: &CanvasNode,
    group: &GroupNode,
    facts: &SimpleFacts,
    section: bool,
) -> (operations: Vec<Operation>)
    requires
        doc.well_formed(),
        *node.data == NodeData::Group(*group),
        crate::scene::children(doc.nodes@, Some(node.id)).len() <= facts.shifted_children@.len(),
    ensures
        converts(operations@, *doc, *node, *facts, section),
{
    let zero = Scalar::of(crate::scalar::ZERO);
    let hundred = Scalar::of(crate::scalar::HUNDRED);
    let mut changed = group.copy();
    let mut operations: Vec<Operation> = Vec::new();
    if group.clip_size.is_none() {
        let shown = match facts.local_box {
            Some(shown) => shown,
            None => LocalBox {
                min_x: zero,
                min_y: zero,
                size: Size { width: hundred, height: hundred },
            },
        };
        changed.local_size = Some(shown.size);
        if !shown.min_x.equals(zero) || !shown.min_y.equals(zero) {
            operations = conversion_moves_of(doc, node, facts);
        }
        if !section {
            changed.clip_size = changed.local_size;
        }
    }
    let ghost lead = operations@;
    let mut meta = object_or_empty(&node.meta);
    if section {
        insert_text(&mut meta, "fanta_kind", "section");
        if changed.clip_size.is_some() {
            changed.local_size = changed.clip_size;
        }
        changed.clip_size = None;
        changed.auto_layout = None;
    } else {
        insert_text(&mut meta, "fanta_kind", "frame");
        remove_member(&mut meta, "clip_content");
    }
    operations.push(replace_data(node, NodeData::Group(changed)));
    operations.push(Operation::SetMeta { id: node.id, old: copy_meta(&node.meta), new: meta });
    assert(operations@.take(lead.len() as int) =~= lead);
    operations
}

// ---------------------------------------------------------------------------
// Instances
// ---------------------------------------------------------------------------

/// The instance without anything of its own, in the size of its main component
/// where that is known.
pub open spec fn reset_instance(
    old: InstanceNode,
    new: InstanceNode,
    master_size: Option<Size>,
) -> bool {
    &&& new.component == old.component
    &&& new.overrides@.len() == 0
    &&& new.prop_values@.len() == 0
    &&& new.derived@.len() == 0
    &&& new.local_size == (match master_size {
        Some(size) => size,
        None => old.local_size,
    })
}

pub open spec fn resets(
    operations: Seq<Operation>,
    node: CanvasNode,
    master_size: Option<Size>,
) -> bool {
    &&& operations.len() == 1
    &&& operations[0] matches Operation::ReplaceData { id, old, new } && id == node.id && old
        == node.data && (*node.data matches NodeData::Instance(before) && (
    *new matches NodeData::Instance(after) && reset_instance(before, after, master_size)))
}

fn reset(
    node: &CanvasNode,
    instance: &InstanceNode,
    master_size: Option<Size>,
) -> (operations: Vec<Operation>)
    requires
        *node.data == NodeData::Instance(*instance),
    ensures
        resets(operations@, *node, master_size),
{
    let changed = InstanceNode {
        component: instance.component,
        overrides: Arc::new(Vec::new()),
        prop_values: Arc::new(Vec::new()),
        derived: Arc::new(Vec::new()),
        local_size: match master_size {
            Some(size) => size,
            None => instance.local_size,
        },
    };
    let mut operations: Vec<Operation> = Vec::new();
    operations.push(replace_data(node, NodeData::Instance(changed)));
    operations
}

// ---------------------------------------------------------------------------
// Components, flattening and outlines of several layers
// ---------------------------------------------------------------------------

/// A result behind operations that come first.
pub open spec fn behind(
    lead: Seq<Operation>,
    inner: Result<Seq<Operation>, LayerError>,
) -> Result<Seq<Operation>, LayerError> {
    match inner {
        Err(error) => Err(error),
        Ok(operations) => Ok(lead + operations),
    }
}

/// Making a component: a group becomes one itself, other layers are framed
/// first.
pub open spec fn component_outcome(
    doc: Doc,
    node: CanvasNode,
    facts: SimpleFacts,
) -> Result<Seq<Operation>, LayerError> {
    if *node.data is Group {
        Ok(facts.component@)
    } else {
        match facts.framed {
            Err(error) => Err(error),
            Ok(framed) => if crate::operations::carried(doc.content(), framed.operations@) {
                Ok(framed.operations@ + facts.component@)
            } else {
                Err(LayerError::NotApplied)
            },
        }
    }
}

fn create_component(doc: &Doc, node: &CanvasNode, facts: &SimpleFacts) -> (r: Result<
    Vec<Operation>,
    LayerError,
>)
    requires
        doc.well_formed(),
    ensures
        crate::layer_moves::outcome_of(r) == component_outcome(*doc, *node, *facts),
{
    let mut operations: Vec<Operation> = Vec::new();
    if let NodeData::Group(_) = &*node.data {
        extend(&mut operations, &facts.component);
        assert(operations@ =~= facts.component@);
        return Ok(operations);
    }
    match &facts.framed {
        Err(error) => Err(error.copy()),
        Ok(framed) => {
            let mut scratch = doc.copy();
            proof {
                crate::layer_context_ops::lemma_same_content(scratch, *doc);
            }
            match scratch.apply_all(&framed.operations) {
                Err(_) => Err(LayerError::NotApplied),
                Ok(_) => {
                    extend(&mut operations, &framed.operations);
                    extend(&mut operations, &facts.component);
                    assert(operations@ =~= framed.operations@ + facts.component@);
                    Ok(operations)
                },
            }
        },
    }
}

/// The group that is flattened, in a document that holds it.
pub open spec fn flat_group(
    doc: Doc,
    scratch: Doc,
    grouped: Grouped,
    facts: FlattenFacts,
    inner: Result<Seq<Operation>, LayerError>,
) -> bool {
    &&& scratch.well_formed()
    &&& scratch.content() == crate::operations::all_applied(doc.content(), grouped.operations@)
    &&& crate::layer_components::flatten_outcome(scratch, grouped.group, facts, inner)
}

/// Flattening one layer, or several as a group.
pub open spec fn flatten_all_outcome(
    doc: Doc,
    id: NodeId,
    ids: Seq<NodeId>,
    facts: SimpleFacts,
    r: Result<Seq<Operation>, LayerError>,
) -> bool {
    if ids.len() <= 1 {
        crate::layer_components::flatten_outcome(doc, id, facts.flatten, r)
    } else {
        match facts.grouped {
            Err(error) => r == Err::<Seq<Operation>, LayerError>(error),
            Ok(grouped) => if !crate::operations::carried(doc.content(), grouped.operations@) {
                r == Err::<Seq<Operation>, LayerError>(LayerError::NotApplied)
            } else {
                exists|scratch: Doc, inner: Result<Seq<Operation>, LayerError>| #[trigger]
                    flat_group(doc, scratch, grouped, facts.flatten, inner) && r == behind(
                        grouped.operations@,
                        inner,
                    )
            },
        }
    }
}

fn flatten_all(doc: &Doc, id: NodeId, ids: &Vec<NodeId>, facts: &SimpleFacts) -> (r: Result<
    Vec<Operation>,
    LayerError,
>)
    requires
        doc.well_formed(),
    ensures
        flatten_all_outcome(*doc, id, ids@, *facts, crate::layer_moves::outcome_of(r)),
{
    if ids.len() <= 1 {
        return flatten(doc, id, &facts.flatten);
    }
    match &facts.grouped {
        Err(error) => Err(error.copy()),
        Ok(grouped) => {
            let mut scratch = doc.copy();
            proof {
                crate::layer_context_ops::lemma_same_content(scratch, *doc);
            }
            match scratch.apply_all(&grouped.operations) {
                Err(_) => Err(LayerError::NotApplied),
                Ok(_) => {
                    let inner = flatten(&scratch, grouped.group, &facts.flatten);
                    assert(flat_group(
                        *doc,
                        scratch,
                        *grouped,
                        facts.flatten,
                        crate::layer_moves::outcome_of(inner),
                    ));
                    match inner {
                        Err(error) => Err(error),
                        Ok(flat) => {
                            let mut operations: Vec<Operation> = Vec::new();
                            extend(&mut operations, &grouped.operations);
                            extend(&mut operations, &flat);
                            assert(operations@ =~= grouped.operations@ + flat@);
                            Ok(operations)
                        },
                    }
                },
            }
        },
    }
}

/// Lists of operations, one behind the other.
pub open spec fn in_turn(steps: Seq<Seq<Operation>>) -> Seq<Operation>
    decreases steps.len(),
{
    if steps.len() == 0 {
        Seq::empty()
    } else {
        in_turn(steps.drop_last()) + steps.last()
    }
}

/// The strokes of one layer are outlined, and the document takes the edits.
pub open spec fn outline_step(
    doc: Doc,
    id: NodeId,
    facts: OutlineFacts,
    edits: Seq<Operation>,
    next: Doc,
) -> bool {
    &&& crate::layer_components::prepared(doc, id, facts)
    &&& crate::layer_components::outline_outcome(doc, id, facts, Ok(edits))
    &&& crate::operations::carried(doc.content(), edits)
    &&& next.well_formed()
    &&& next.content() == crate::operations::all_applied(doc.content(), edits)
}

/// A layer is in the way of outlining: its own error, or edits that the
/// document does not take. Facts that do not fit the layer are refused.
pub open spec fn outline_stop(
    doc: Doc,
    id: NodeId,
    facts: Seq<OutlineFacts>,
    at: int,
    error: LayerError,
) -> bool {
    if at >= facts.len() || !crate::layer_components::prepared(doc, id, facts[at]) {
        error == LayerError::NotApplied
    } else {
        ||| crate::layer_components::outline_outcome(doc, id, facts[at], Err(error))
        ||| error == LayerError::NotApplied && exists|edits: Seq<Operation>|
            crate::layer_components::outline_outcome(
                doc,
                id,
                facts[at],
                #[trigger] fine(edits),
            ) && !crate::operations::carried(doc.content(), edits)
    }
}

/// Edits without an error.
pub open spec fn fine(edits: Seq<Operation>) -> Result<Seq<Operation>, LayerError> {
    Ok(edits)
}

/// The layers of a list are outlined one after the other, each in the document
/// that the one before has left.
pub open spec fn outline_run(
    ids: Seq<NodeId>,
    facts: Seq<OutlineFacts>,
    docs: Seq<Doc>,
    steps: Seq<Seq<Operation>>,
    r: Result<Seq<Operation>, LayerError>,
) -> bool {
    let n = steps.len() as int;
    &&& docs.len() == n + 1
    &&& n <= ids.len()
    &&& n <= facts.len()
    &&& forall|k: int|
        0 <= k < n ==> outline_step(
            docs[k],
            ids[k],
            facts[k],
            #[trigger] steps[k],
            docs[k + 1],
        )
    &&& if n == ids.len() {
        r == Ok::<Seq<Operation>, LayerError>(in_turn(steps))
    } else {
        r is Err && outline_stop(docs[n], ids[n], facts, n, r->Err_0)
    }
}

/// What outlining the strokes of several layers does.
pub open spec fn outline_chain(
    doc: Doc,
    ids: Seq<NodeId>,
    facts: Seq<OutlineFacts>,
    r: Result<Seq<Operation>, LayerError>,
) -> bool {
    exists|docs: Seq<Doc>, steps: Seq<Seq<Operation>>| #[trigger]
        outline_run(ids, facts, docs, steps, r) && docs[0].same_as(doc)
}

fn is_prepared(doc: &Doc, id: NodeId, facts: &OutlineFacts) -> (r: bool)
    ensures
        r == crate::layer_components::prepared(*doc, id, *facts),
{
    match doc.get(id) {
        None => true,
        Some(node) => {
            let n: usize = match &*node.data {
                NodeData::Vector(value) => value.strokes.len(),
                NodeData::Boolean(value) => value.strokes.len(),
                NodeData::Group(value) => value.strokes.len(),
                _ => 0,
            };
            n <= facts.stroke_paths.len() && n < facts.blanks.len()
        },
    }
}

fn outline_each(doc: &Doc, ids: &Vec<NodeId>, facts: &Vec<OutlineFacts>) -> (r: Result<
    Vec<Operation>,
    LayerError,
>)
    requires
        doc.well_formed(),
    ensures
        outline_chain(*doc, ids@, facts@, crate::layer_moves::outcome_of(r)),
{
    let mut scratch = doc.copy();
    proof {
        crate::layer_context_ops::lemma_same_content(scratch, *doc);
    }
    let ghost mut docs: Seq<Doc> = seq![scratch];
    let ghost mut steps: Seq<Seq<Operation>> = Seq::empty();
    let mut operations: Vec<Operation> = Vec::new();
    let mut i: usize = 0;
    assert(operations@ =~= in_turn(steps));
    while i < ids.len()
        invariant
            i <= ids@.len(),
            i <= facts@.len(),
            scratch.well_formed(),
            steps.len() == i,
            docs.len() == i + 1,
            docs[0].same_as(*doc),
            docs[i as int] == scratch,
            operations@ == in_turn(steps),
            forall|k: int|
                0 <= k < i ==> outline_step(
                    docs[k],
                    ids@[k],
                    facts@[k],
                    #[trigger] steps[k],
                    docs[k + 1],
                ),
        decreases ids@.len() - i,
    {
        if i >= facts.len() || !is_prepared(&scratch, ids[i], &facts[i]) {
            let r: Result<Vec<Operation>, LayerError> = Err(LayerError::NotApplied);
            assert(outline_run(ids@, facts@, docs, steps, crate::layer_moves::outcome_of(r)));
            return r;
        }
        match outline_strokes(&scratch, ids[i], &facts[i]) {
            Err(error) => {
                let r: Result<Vec<Operation>, LayerError> = Err(error);
                assert(outline_run(ids@, facts@, docs, steps, crate::layer_moves::outcome_of(r)));
                return r;
            },
            Ok(edits) => {
                let ghost before = scratch;
                match scratch.apply_all(&edits) {
                    Err(_) => {
                        let r: Result<Vec<Operation>, LayerError> = Err(LayerError::NotApplied);
                        proof {
                            assert(crate::layer_components::outline_outcome(
                                before,
                                ids@[i as int],
                                facts@[i as int],
                                fine(edits@),
                            ));
                            assert(outline_run(
                                ids@,
                                facts@,
                                docs,
                                steps,
                                crate::layer_moves::outcome_of(r),
                            ));
                        }
                        return r;
                    },
                    Ok(_) => {
                        let ghost old_docs = docs;
                        let ghost old_steps = steps;
                        proof {
                            docs = docs.push(scratch);
                            steps = steps.push(edits@);
                            assert(steps.drop_last() =~= old_steps);
                            assert forall|k: int| 0 <= k < i + 1 implies outline_step(
                                docs[k],
                                ids@[k],
                                facts@[k],
                                #[trigger] steps[k],
                                docs[k + 1],
                            ) by {
                                if k < i {
                                    assert(steps[k] == old_steps[k]);
                                    assert(docs[k] == old_docs[k]);
                                    assert(docs[k + 1] == old_docs[k + 1]);
                                }
                            }
                        }
                        extend(&mut operations, &edits);
                    },
                }
            },
        }
        i = i + 1;
    }
    let r: Result<Vec<Operation>, LayerError> = Ok(operations);
    assert(outline_run(ids@, facts@, docs, steps, crate::layer_moves::outcome_of(r)));
    r
}

// ---------------------------------------------------------------------------
// The command
// ---------------------------------------------------------------------------

/// There is a moved transform for every child of the layer.
pub open spec fn children_measured(doc: Doc, id: NodeId, facts: SimpleFacts) -> bool {
    crate::scene::children(doc.nodes@, Some(id)).len() <= facts.shifted_children@.len()
}

/// What a command does, case by case.
pub open spec fn simple_outcome(
    doc: Doc,
    id: NodeId,
    action: LayerAction,
    facts: SimpleFacts,
    r: Result<Vec<Operation>, LayerError>,
) -> bool {
    let ids = crate::layer_context_ops::target_ids(doc, id, facts.selection_roots@);
    let plain = crate::layer_moves::outcome_of(r);
    if !crate::layer_context_ops::can_edit(doc, id) {
        r == Err::<Vec<Operation>, LayerError>(LayerError::LockedOrPage)
    } else if covers_targets(action) && crate::layer_context_ops::any_locked(doc, ids) {
        r == Err::<Vec<Operation>, LayerError>(LayerError::SelectedLocked)
    } else {
        let node = crate::scene::find(doc.nodes@, id)->0;
        match action {
            LayerAction::UseAsMask => r is Ok && r->Ok_0@ == seq![
                Operation::SetMask { id: id, old: node.is_mask, new: !node.is_mask },
            ],
            LayerAction::FlipHorizontal | LayerAction::FlipVertical => if facts.selection_bounds {
                plain == flips(doc.nodes@, ids, facts.reflected@)
            } else {
                r == Err::<Vec<Operation>, LayerError>(LayerError::NoSelectionBounds)
            },
            LayerAction::ConvertToFrame | LayerAction::ConvertToSection =>
                if crate::layer_context_ops::draws_component(doc, id) {
                    r == Err::<Vec<Operation>, LayerError>(LayerError::ComponentToSection)
                } else if !(*node.data is Group) {
                    r == Err::<Vec<Operation>, LayerError>(LayerError::NotGroup)
                } else {
                    r is Ok && converts(
                        r->Ok_0@,
                        doc,
                        node,
                        facts,
                        action is ConvertToSection,
                    )
                },
            LayerAction::ResetInstance => if *node.data is Instance {
                r is Ok && resets(r->Ok_0@, node, facts.master_size)
            } else {
                r == Err::<Vec<Operation>, LayerError>(LayerError::NotInstance)
            },
            LayerAction::AddAutoLayout => crate::layer_context_ops::auto_layout_outcome(
                doc,
                id,
                Some(LayoutMode::Horizontal),
                facts.selection_roots@,
                facts.layout,
                r,
            ),
            LayerAction::CreateComponent => plain == component_outcome(doc, node, facts),
            LayerAction::Flatten => flatten_all_outcome(doc, id, ids, facts, plain),
            LayerAction::OutlineStroke => outline_chain(doc, ids, facts.outlines@, plain),
            _ => r == Err::<Vec<Operation>, LayerError>(LayerError::NeedsPicker),
        }
    }
}

/// The operations of a layer command that needs no picker.
pub fn simple(doc: &Doc, id: NodeId, action: LayerAction, facts: &SimpleFacts) -> (r: Result<
    Vec<Operation>,
    LayerError,
>)
    requires
        doc.well_formed(),
        children_measured(*doc, id, *facts),
    ensures
        simple_outcome(*doc, id, action, *facts, r),
{
    if !editable(doc, id) {
        return Err(LayerError::LockedOrPage);
    }
    proof {
        crate::scene::lemma_find_has_id(doc.nodes@, id);
    }
    let ids = targets(doc, id, &facts.selection_roots);
    let covers = match action {
        LayerAction::FlipHorizontal
        | LayerAction::FlipVertical
        | LayerAction::CreateComponent
        | LayerAction::AddAutoLayout
        | LayerAction::Flatten
        | LayerAction::OutlineStroke => true,
        _ => false,
    };
    if covers && crate::layer_context_ops::any_uneditable(doc, &ids) {
        return Err(LayerError::SelectedLocked);
    }
    let node = match doc.get(id) {
        Some(node) => node,
        None => {
            return Err(LayerError::MissingLayer);
        },
    };
    match action {
        LayerAction::UseAsMask => {
            let mut operations: Vec<Operation> = Vec::new();
            operations.push(Operation::SetMask { id, old: node.is_mask, new: !node.is_mask });
            assert(operations@ =~= seq![
                Operation::SetMask { id: id, old: node.is_mask, new: !node.is_mask },
            ]);
            Ok(operations)
        },
        LayerAction::FlipHorizontal | LayerAction::FlipVertical => {
            if !facts.selection_bounds {
                return Err(LayerError::NoSelectionBounds);
            }
            flip(doc, &ids, &facts.reflected)
        },
        LayerAction::ConvertToFrame | LayerAction::ConvertToSection => {
            if is_component_root(doc, id) {
                return Err(LayerError::ComponentToSection);
            }
            match &*node.data {
                NodeData::Group(group) => {
                    let section = match action {
                        LayerAction::ConvertToSection => true,
                        _ => false,
                    };
                    Ok(convert(doc, node, group, facts, section))
                },
                _ => Err(LayerError::NotGroup),
            }
        },
        LayerAction::ResetInstance => match &*node.data {
            NodeData::Instance(instance) => Ok(reset(node, instance, facts.master_size)),
            _ => Err(LayerError::NotInstance),
        },
        LayerAction::AddAutoLayout => auto_layout(
            doc,
            id,
            Some(LayoutMode::Horizontal),
            &facts.selection_roots,
            &facts.layout,
        ),
        LayerAction::CreateComponent => create_component(doc, node, facts),
        LayerAction::Flatten => flatten_all(doc, id, &ids, facts),
        LayerAction::OutlineStroke => outline_each(doc, &ids, &facts.outlines),
        _ => Err(LayerError::NeedsPicker),
    }
}

// ---------------------------------------------------------------------------
// Laws
// ---------------------------------------------------------------------------

/// A layer that is locked, or stands below a locked one, is changed by no
/// command.
pub proof fn lemma_locked_layer_refused(
    doc: Doc,
    id: NodeId,
    action: LayerAction,
    facts: SimpleFacts,
    r: Result<Vec<Operation>, LayerError>,
)
    requires
        simple_outcome(doc, id, action, facts, r),
        (crate::scene::find(doc.nodes@, id) matches Some(node) && node.flags.locked)
            || crate::scene::under_lock(doc.nodes@, id),
    ensures
        r == Err::<Vec<Operation>, LayerError>(LayerError::LockedOrPage),
{
}

proof fn lemma_flips_shape(
    doc: Doc,
    ids: Seq<NodeId>,
    reflected: Seq<Option<Transform>>,
)
    requires
        doc.well_formed(),
        !crate::layer_context_ops::any_locked(doc, ids),
    ensures
        flips(doc.nodes@, ids, reflected) matches Ok(operations) ==> operations.len() == ids.len()
            && forall|i: int|
            0 <= i < ids.len() ==> (#[trigger] operations[i] matches Operation::SetTransform {
                id,
                old,
                new,
            } && id == ids[i] && doc.content().nodes.dom().contains(ids[i]) && old
                == doc.content().nodes[ids[i]].transform),
    decreases ids.len(),
{
    if ids.len() > 0 {
        let front = ids.drop_last();
        assert forall|i: int| 0 <= i < front.len() implies crate::layer_context_ops::can_edit(
            doc,
            #[trigger] front[i],
        ) by {
            assert(crate::layer_context_ops::can_edit(doc, ids[i]));
        }
        lemma_flips_shape(doc, front, reflected);
        let last = ids[ids.len() - 1];
        assert(crate::layer_context_ops::can_edit(doc, last));
        crate::operations::lemma_find_is_content(doc, last);
        if let Ok(operations) = flips(doc.nodes@, ids, reflected) {
            let head = flips(doc.nodes@, front, reflected)->Ok_0;
            assert forall|i: int| 0 <= i < ids.len() implies (
            #[trigger] operations[i] matches Operation::SetTransform { id, old, new } && id
                == ids[i] && doc.content().nodes.dom().contains(ids[i]) && old
                == doc.content().nodes[ids[i]].transform) by {
                if i < front.len() {
                    assert(operations[i] == head[i]);
                    assert(front[i] == ids[i]);
                }
            }
        }
    }
}

/// Masks, flips, conversions and resets can be taken back. The targets of a
/// flip are named once each, and no layer is its own parent.
pub proof fn lemma_simple_reversible(
    doc: Doc,
    id: NodeId,
    action: LayerAction,
    facts: SimpleFacts,
    r: Result<Vec<Operation>, LayerError>,
)
    requires
        doc.well_formed(),
        children_measured(doc, id, facts),
        simple_outcome(doc, id, action, facts, r),
        r is Ok,
        action is UseAsMask || action is FlipHorizontal || action is FlipVertical
            || action is ConvertToFrame || action is ConvertToSection || action is ResetInstance,
        facts.selection_roots@.no_duplicates(),
        crate::scene::find(doc.nodes@, id) matches Some(node) ==> node.parent != Some(id),
    ensures
        crate::operations::reversible(doc.content(), r->Ok_0@),
{
    let operations = r->Ok_0@;
    let content = doc.content();
    let node = crate::scene::find(doc.nodes@, id)->0;
    crate::operations::lemma_doc_filed(doc);
    crate::operations::lemma_find_is_content(doc, id);
    crate::scene::lemma_find_has_id(doc.nodes@, id);
    if action is FlipHorizontal || action is FlipVertical {
        let ids = crate::layer_context_ops::target_ids(doc, id, facts.selection_roots@);
        lemma_flips_shape(doc, ids, facts.reflected@);
        assert(ids.no_duplicates());
        assert forall|i: int| 0 <= i < operations.len() implies crate::operations::changes(
            #[trigger] operations[i],
        ) is Some && crate::operations::applicable(content, operations[i])
            && crate::operations::recorded(content, operations[i]) by {
            assert(operations[i] is SetTransform);
        }
        assert forall|i: int, j: int|
            0 <= i < j < operations.len() implies crate::operations::apart(
            #[trigger] operations[i],
            #[trigger] operations[j],
        ) by {
            assert(ids[i] != ids[j]);
        }
    } else if action is ConvertToFrame || action is ConvertToSection {
        lemma_conversion_independent(doc, node, facts, action is ConvertToSection, operations);
    }
    crate::operations::lemma_independent_reversible(content, operations);
}

proof fn lemma_conversion_independent(
    doc: Doc,
    node: CanvasNode,
    facts: SimpleFacts,
    section: bool,
    operations: Seq<Operation>,
)
    requires
        doc.well_formed(),
        converts(operations, doc, node, facts, section),
        doc.content().nodes.dom().contains(node.id),
        doc.content().nodes[node.id] == node,
        node.parent != Some(node.id),
    ensures
        crate::operations::independent(operations),
        forall|i: int|
            0 <= i < operations.len() ==> crate::operations::changes(#[trigger] operations[i])
                is Some && crate::operations::applicable(doc.content(), operations[i])
                && crate::operations::recorded(doc.content(), operations[i]),
{
    let content = doc.content();
    let kids = crate::scene::children(doc.nodes@, Some(node.id));
    let moves = conversion_moves(node, kids, facts);
    let moved = *node.data matches NodeData::Group(group) && contents_move(group, facts.local_box);
    let n: int = if moved {
        moves.len() as int
    } else {
        0
    };
    crate::content_walk::lemma_children_distinct(doc, Some(node.id));
    assert forall|i: int| 0 <= i < kids.len() implies content.nodes.dom().contains(
        (#[trigger] kids[i]).id,
    ) && content.nodes[kids[i].id] == kids[i] && kids[i].id != node.id by {
        crate::content_walk::lemma_child_found(doc, Some(node.id), i);
        crate::operations::lemma_find_is_content(doc, kids[i].id);
    }
    assert forall|i: int| 0 <= i < n implies #[trigger] operations[i] == moves[i] by {
        assert(operations.take(n)[i] == moves[i]);
    }
    assert forall|i: int| 0 <= i < operations.len() implies crate::operations::changes(
        #[trigger] operations[i],
    ) is Some && crate::operations::applicable(content, operations[i])
        && crate::operations::recorded(content, operations[i]) by {
        if i < n {
            if i > 0 {
                assert(content.nodes.dom().contains(kids[i - 1].id));
            }
        }
    }
    assert forall|i: int, j: int| 0 <= i < j < operations.len() implies crate::operations::apart(
        #[trigger] operations[i],
        #[trigger] operations[j],
    ) by {
        assert(crate::operations::changes(operations[i]) is Some);
        assert(crate::operations::changes(operations[j]) is Some);
        if j < n {
            assert(kids[j - 1].id != node.id);
            if i > 0 {
                assert(kids[i - 1].id != kids[j - 1].id);
            }
        }
    }
}

} // verus!
