//! Commands of the inspector that work on all selected layers at once.

use vstd::prelude::*;
use vstd::string::*;

use crate::design_host::HostEdit;
use crate::design_properties::{property_operations, PropertyEdit, PropertyFacts};
use crate::design_values::{number_of, DesignProperty, DesignValue};
use crate::document::{Doc, LayoutMode, Transform};
use crate::ids::NodeId;
use crate::layer_context_ops::{any_uneditable, auto_layout, created_roots, Grouped, LayoutFacts};
use crate::layer_errors::LayerError;
use crate::operations::{extend, Operation};
use crate::panel::{DocChange, FantaDesignPanel, LayerEdit};
use crate::scalar::Scalar;
use crate::text::{numbered, same_text};

verus! {

// ---------------------------------------------------------------------------
// Targets
// ---------------------------------------------------------------------------

/// What a command of the inspector is meant for. An id that stands for no layer
/// is missing.
#[derive(Debug, PartialEq)]
pub enum DesignTarget {
    Nodes(Vec<Option<NodeId>>),
    Page(String),
}

/// The ids that a list of known ones would be.
pub open spec fn known(ids: Seq<NodeId>) -> Seq<Option<NodeId>> {
    ids.map_values(|id: NodeId| Some(id))
}

/// The target is exactly the selection, in its order.
pub open spec fn meets_selection(target: DesignTarget, selection: Seq<NodeId>) -> bool {
    target matches DesignTarget::Nodes(ids) && ids@ == known(selection)
}

pub fn target_matches_selection(target: &DesignTarget, selection: &Vec<NodeId>) -> (r: bool)
    ensures
        r == meets_selection(*target, selection@),
{
    let ids = match target {
        DesignTarget::Nodes(ids) => ids,
        DesignTarget::Page(_) => {
            return false;
        },
    };
    if ids.len() != selection.len() {
        assert(ids@.len() != known(selection@).len());
        return false;
    }
    let mut i: usize = 0;
    while i < ids.len()
        invariant
            i <= ids@.len(),
            *target == DesignTarget::Nodes(*ids),
            ids@.len() == selection@.len(),
            forall|k: int| 0 <= k < i ==> ids@[k] == Some(selection@[k]),
        decreases ids@.len() - i,
    {
        let same = match ids[i] {
            Some(id) => id == selection[i],
            None => false,
        };
        if !same {
            assert(known(selection@)[i as int] == Some(selection@[i as int]));
            assert(ids@[i as int] != known(selection@)[i as int]);
            return false;
        }
        i = i + 1;
    }
    assert(ids@ =~= known(selection@));
    true
}

/// The id of the page that is shown: that of its root, or else one after its
/// place.
pub open spec fn page_name(root: Option<String>, index: Option<usize>) -> Seq<char> {
    match root {
        Some(root) => root@,
        None => "page-"@ + crate::text::decimal(
            (match index {
                Some(index) => index as nat,
                None => 0,
            }),
        ),
    }
}

pub fn current_page_id(root: &Option<String>, index: Option<usize>) -> (id: String)
    ensures
        id@ == page_name(*root, index),
{
    match root {
        Some(root) => root.clone(),
        None => numbered(
            "page-",
            match index {
                Some(index) => index,
                None => 0,
            },
        ),
    }
}

/// The target of an export is what is selected, or the page that is shown while
/// nothing is.
pub open spec fn meets_export(
    target: DesignTarget,
    doc: Doc,
    root: Option<String>,
    index: Option<usize>,
) -> bool {
    match target {
        DesignTarget::Nodes(_) => meets_selection(target, doc.selection@),
        DesignTarget::Page(id) => doc.selection@.len() == 0 && id@ == page_name(root, index),
    }
}

pub fn export_target_matches(
    target: &DesignTarget,
    doc: &Doc,
    root: &Option<String>,
    index: Option<usize>,
) -> (r: bool)
    ensures
        r == meets_export(*target, *doc, *root, index),
{
    match target {
        DesignTarget::Nodes(_) => target_matches_selection(target, &doc.selection),
        DesignTarget::Page(id) => {
            if doc.selection.len() != 0 {
                return false;
            }
            let current = current_page_id(root, index);
            same_text(id.as_str(), current.as_str())
        },
    }
}

// ---------------------------------------------------------------------------
// Properties
// ---------------------------------------------------------------------------

/// The box around all selected layers, on the page.
#[derive(Clone, Copy, Debug, PartialEq, Eq, Structural)]
pub struct SelectionBox {
    pub min_x: Scalar,
    pub min_y: Scalar,
    pub width: Scalar,
    pub height: Scalar,
}

/// What the host computes for an edit of several layers.
#[derive(Debug, PartialEq)]
pub struct TargetFacts {
    /// The box around all layers, where each of them has one.
    pub bounds: Option<SelectionBox>,
    /// The transform of every layer once the box is moved or scaled; missing
    /// where the layer above it squeezes everything flat.
    pub moved: Vec<Option<Transform>>,
    /// One entry for every layer.
    pub properties: Vec<PropertyFacts>,
}

#[derive(Debug, PartialEq)]
pub enum TargetedEdit {
    /// The layers are moved or scaled together.
    Moved(Vec<Operation>),
    /// Every layer is edited for itself.
    Each(Vec<PropertyEdit>),
}

/// Properties that an edit of several layers changes for all of them together.
pub open spec fn is_joint(property: DesignProperty) -> bool {
    property == DesignProperty::X || property == DesignProperty::Y || property
        == DesignProperty::Width || property == DesignProperty::Height
}

/// What an edit of the common box comes to: refused, nothing to do, or a change.
#[derive(Clone, Copy, Debug, PartialEq, Eq, Structural)]
pub enum BoxChange {
    Refused,
    Same,
    Changed,
}

/// A box can be moved anywhere, and scaled to a positive size if it has one.
pub open spec fn box_change(
    property: DesignProperty,
    number: Scalar,
    bounds: SelectionBox,
) -> BoxChange {
    let zero = Scalar::of(crate::scalar::ZERO);
    let (current, sizes) = match property {
        DesignProperty::X => (bounds.min_x, false),
        DesignProperty::Y => (bounds.min_y, false),
        DesignProperty::Width => (bounds.width, true),
        _ => (bounds.height, true),
    };
    if sizes && (number.le(zero) || current.le(zero)) {
        BoxChange::Refused
    } else if number.same(current) {
        BoxChange::Same
    } else {
        BoxChange::Changed
    }
}

fn change_box(property: DesignProperty, number: Scalar, bounds: &SelectionBox) -> (r: BoxChange)
    ensures
        r == box_change(property, number, *bounds),
{
    let zero = Scalar::of(crate::scalar::ZERO);
    let (current, sizes) = match property {
        DesignProperty::X => (bounds.min_x, false),
        DesignProperty::Y => (bounds.min_y, false),
        DesignProperty::Width => (bounds.width, true),
        _ => (bounds.height, true),
    };
    if sizes && (number.at_most(zero) || current.at_most(zero)) {
        BoxChange::Refused
    } else if number.equals(current) {
        BoxChange::Same
    } else {
        BoxChange::Changed
    }
}

/// Every layer is there and can be moved.
pub open spec fn all_movable(doc: Doc, ids: Seq<NodeId>, moved: Seq<Option<Transform>>) -> bool {
    forall|i: int|
        0 <= i < ids.len() ==> crate::scene::find(doc.nodes@, #[trigger] ids[i]) is Some && i
            < moved.len() && moved[i] is Some
}

/// The operations that move every layer.
pub open spec fn moves(doc: Doc, ids: Seq<NodeId>, moved: Seq<Option<Transform>>) -> Seq<
    Operation,
> {
    Seq::new(
        ids.len(),
        |i: int|
            Operation::SetTransform {
                id: ids[i],
                old: crate::scene::find(doc.nodes@, ids[i])->0.transform,
                new: moved[i]->0,
            },
    )
}

/// An edit of a property of several layers. Place and size are those of the box
/// around them, and the layers keep their places in it; all of it or nothing is
/// done.
pub open spec fn targeted_outcome(
    doc: Doc,
    ids: Seq<NodeId>,
    property: DesignProperty,
    value: DesignValue,
    facts: TargetFacts,
    r: Option<TargetedEdit>,
) -> bool {
    if is_joint(property) {
        match (crate::design_values::number_in(value), facts.bounds) {
            (Some(number), Some(bounds)) => if !number.finite() {
                r is None
            } else {
                match box_change(property, number, bounds) {
                    BoxChange::Refused => r is None,
                    BoxChange::Same => r matches Some(TargetedEdit::Moved(operations))
                        && operations@.len() == 0,
                    BoxChange::Changed => if all_movable(doc, ids, facts.moved@) {
                        r matches Some(TargetedEdit::Moved(operations)) && operations@ == moves(
                            doc,
                            ids,
                            facts.moved@,
                        )
                    } else {
                        r is None
                    },
                }
            },
            _ => r is None,
        }
    } else {
        match r {
            Some(edit) => {
                &&& edit matches TargetedEdit::Each(edits)
                &&& edits@.len() == ids.len()
                &&& ids.len() <= facts.properties@.len()
                &&& forall|i: int|
                    0 <= i < ids.len() ==> crate::design_properties::property_outcome(
                        doc,
                        #[trigger] ids[i],
                        property,
                        value,
                        facts.properties@[i],
                        Some(edits@[i]),
                    )
            },
            None => ids.len() > facts.properties@.len() || exists|i: int|
                0 <= i < ids.len() && crate::design_properties::property_outcome(
                    doc,
                    #[trigger] ids[i],
                    property,
                    value,
                    facts.properties@[i],
                    None,
                ),
        }
    }
}

fn move_all(doc: &Doc, ids: &Vec<NodeId>, moved: &Vec<Option<Transform>>) -> (r: Option<
    Vec<Operation>,
>)
    ensures
        match r {
            Some(operations) => all_movable(*doc, ids@, moved@) && operations@ == moves(
                *doc,
                ids@,
                moved@,
            ),
            None => !all_movable(*doc, ids@, moved@),
        },
{
    let mut operations: Vec<Operation> = Vec::new();
    let mut i: usize = 0;
    while i < ids.len()
        invariant
            i <= ids@.len(),
            operations@ == moves(*doc, ids@, moved@).take(i as int),
            forall|k: int|
                0 <= k < i ==> crate::scene::find(doc.nodes@, #[trigger] ids@[k]) is Some && k
                    < moved@.len() && moved@[k] is Some,
        decreases ids@.len() - i,
    {
        let id = ids[i];
        let new = if i < moved.len() {
            moved[i]
        } else {
            None
        };
        match (doc.get(id), new) {
            (Some(node), Some(new)) => {
                operations.push(Operation::SetTransform { id, old: node.transform, new });
                assert(operations@ =~= moves(*doc, ids@, moved@).take(i + 1));
            },
            _ => {
                assert(!(crate::scene::find(doc.nodes@, ids@[i as int]) is Some && i
                    < moved@.len() && moved@[i as int] is Some));
                return None;
            },
        }
        i = i + 1;
    }
    assert(operations@ =~= moves(*doc, ids@, moved@));
    Some(operations)
}

fn edit_each(
    doc: &Doc,
    ids: &Vec<NodeId>,
    property: DesignProperty,
    value: &DesignValue,
    facts: &Vec<PropertyFacts>,
) -> (r: Option<Vec<PropertyEdit>>)
    ensures
        match r {
            Some(edits) => {
                &&& edits@.len() == ids@.len()
                &&& ids@.len() <= facts@.len()
                &&& forall|i: int|
                    0 <= i < ids@.len() ==> crate::design_properties::property_outcome(
                        *doc,
                        #[trigger] ids@[i],
                        property,
                        *value,
                        facts@[i],
                        Some(edits@[i]),
                    )
            },
            None => ids@.len() > facts@.len() || exists|i: int|
                0 <= i < ids@.len() && crate::design_properties::property_outcome(
                    *doc,
                    #[trigger] ids@[i],
                    property,
                    *value,
                    facts@[i],
                    None,
                ),
        },
{
    if ids.len() > facts.len() {
        return None;
    }
    let mut edits: Vec<PropertyEdit> = Vec::new();
    let mut i: usize = 0;
    while i < ids.len()
        invariant
            i <= ids@.len() <= facts@.len(),
            edits@.len() == i,
            forall|k: int|
                0 <= k < i ==> crate::design_properties::property_outcome(
                    *doc,
                    #[trigger] ids@[k],
                    property,
                    *value,
                    facts@[k],
                    Some(edits@[k]),
                ),
        decreases ids@.len() - i,
    {
        match property_operations(doc, ids[i], property, value, &facts[i]) {
            Some(edit) => {
                edits.push(edit);
            },
            None => {
                assert(crate::design_properties::property_outcome(
                    *doc,
                    ids@[i as int],
                    property,
                    *value,
                    facts@[i as int],
                    None,
                ));
                return None;
            },
        }
        i = i + 1;
    }
    Some(edits)
}

/// The edit of a property for several layers.
pub fn targeted_property_operations(
    doc: &Doc,
    ids: &Vec<NodeId>,
    property: DesignProperty,
    value: &DesignValue,
    facts: &TargetFacts,
) -> (r: Option<TargetedEdit>)
    ensures
        targeted_outcome(*doc, ids@, property, *value, *facts, r),
{
    let joint = match property {
        DesignProperty::X => true,
        DesignProperty::Y => true,
        DesignProperty::Width => true,
        DesignProperty::Height => true,
        _ => false,
    };
    if joint {
        let number = match number_of(value) {
            Some(number) => number,
            None => {
                return None;
            },
        };
        let bounds = match facts.bounds {
            Some(bounds) => bounds,
            None => {
                return None;
            },
        };
        if !number.is_finite() {
            return None;
        }
        match change_box(property, number, &bounds) {
            BoxChange::Refused => None,
            BoxChange::Same => Some(TargetedEdit::Moved(Vec::new())),
            BoxChange::Changed => match move_all(doc, ids, &facts.moved) {
                Some(operations) => Some(TargetedEdit::Moved(operations)),
                None => None,
            },
        }
    } else {
        match edit_each(doc, ids, property, value, &facts.properties) {
            Some(edits) => Some(TargetedEdit::Each(edits)),
            None => None,
        }
    }
}

// ---------------------------------------------------------------------------
// Arranging
// ---------------------------------------------------------------------------

#[derive(Clone, Copy, Debug, PartialEq, Eq, Structural)]
pub enum ArrangeOperation {
    AlignLeft,
    AlignHorizontalCenter,
    AlignRight,
    AlignTop,
    AlignVerticalCenter,
    AlignBottom,
    DistributeHorizontal,
    DistributeVertical,
    TidyUp,
}

/// A step of arranging that the canvas carries out.
#[derive(Clone, Copy, Debug, PartialEq, Eq, Structural)]
pub enum ArrangeStep {
    Left,
    Center,
    Right,
    Top,
    Middle,
    Bottom,
    DistributeX,
    DistributeY,
}

/// How far apart the centers of the layers lie, where each has a box.
#[derive(Clone, Copy, Debug, PartialEq, Eq, Structural)]
pub struct CenterSpans {
    pub horizontal: Scalar,
    pub vertical: Scalar,
}

/// What arranging does. Tidying up aligns the layers across the direction in
/// which they lie farther apart, and then distributes them along it.
#[derive(Clone, Copy, Debug, PartialEq, Eq, Structural)]
pub enum ArrangePlan {
    Nothing,
    One(ArrangeStep),
    Tidy { align: ArrangeStep, distribute: ArrangeStep },
}

pub open spec fn arrange_plan_of(
    operation: ArrangeOperation,
    count: nat,
    spans: Option<CenterSpans>,
) -> Option<ArrangePlan> {
    match operation {
        ArrangeOperation::AlignLeft => Some(ArrangePlan::One(ArrangeStep::Left)),
        ArrangeOperation::AlignHorizontalCenter => Some(ArrangePlan::One(ArrangeStep::Center)),
        ArrangeOperation::AlignRight => Some(ArrangePlan::One(ArrangeStep::Right)),
        ArrangeOperation::AlignTop => Some(ArrangePlan::One(ArrangeStep::Top)),
        ArrangeOperation::AlignVerticalCenter => Some(ArrangePlan::One(ArrangeStep::Middle)),
        ArrangeOperation::AlignBottom => Some(ArrangePlan::One(ArrangeStep::Bottom)),
        ArrangeOperation::DistributeHorizontal => Some(
            ArrangePlan::One(ArrangeStep::DistributeX),
        ),
        ArrangeOperation::DistributeVertical => Some(ArrangePlan::One(ArrangeStep::DistributeY)),
        ArrangeOperation::TidyUp => if count < 2 {
            Some(ArrangePlan::Nothing)
        } else {
            match spans {
                Some(spans) => Some(
                    if spans.vertical.le(spans.horizontal) {
                        ArrangePlan::Tidy {
                            align: ArrangeStep::Middle,
                            distribute: ArrangeStep::DistributeX,
                        }
                    } else {
                        ArrangePlan::Tidy {
                            align: ArrangeStep::Center,
                            distribute: ArrangeStep::DistributeY,
                        }
                    },
                ),
                None => None,
            }
        },
    }
}

pub fn arrange_plan(operation: ArrangeOperation, count: usize, spans: Option<CenterSpans>) -> (plan:
    Option<ArrangePlan>)
    ensures
        plan == arrange_plan_of(operation, count as nat, spans),
{
    match operation {
        ArrangeOperation::AlignLeft => Some(ArrangePlan::One(ArrangeStep::Left)),
        ArrangeOperation::AlignHorizontalCenter => Some(ArrangePlan::One(ArrangeStep::Center)),
        ArrangeOperation::AlignRight => Some(ArrangePlan::One(ArrangeStep::Right)),
        ArrangeOperation::AlignTop => Some(ArrangePlan::One(ArrangeStep::Top)),
        ArrangeOperation::AlignVerticalCenter => Some(ArrangePlan::One(ArrangeStep::Middle)),
        ArrangeOperation::AlignBottom => Some(ArrangePlan::One(ArrangeStep::Bottom)),
        ArrangeOperation::DistributeHorizontal => Some(
            ArrangePlan::One(ArrangeStep::DistributeX),
        ),
        ArrangeOperation::DistributeVertical => Some(ArrangePlan::One(ArrangeStep::DistributeY)),
        ArrangeOperation::TidyUp => {
            if count < 2 {
                return Some(ArrangePlan::Nothing);
            }
            match spans {
                Some(spans) => Some(
                    if spans.vertical.at_most(spans.horizontal) {
                        ArrangePlan::Tidy {
                            align: ArrangeStep::Middle,
                            distribute: ArrangeStep::DistributeX,
                        }
                    } else {
                        ArrangePlan::Tidy {
                            align: ArrangeStep::Center,
                            distribute: ArrangeStep::DistributeY,
                        }
                    },
                ),
                None => None,
            }
        },
    }
}

/// What arranging makes of the steps that the host carries out.
pub open spec fn arranged<H: Fn(&Doc, HostEdit) -> Vec<Operation>>(
    doc: Doc,
    plan: Option<ArrangePlan>,
    host: H,
    r: Option<Vec<Operation>>,
) -> bool {
    match plan {
        None => r is None,
        Some(ArrangePlan::Nothing) => r matches Some(operations) && operations@.len() == 0,
        Some(ArrangePlan::One(step)) => r matches Some(operations) && host.ensures(
            (&doc, HostEdit::Arrange(step)),
            operations,
        ),
        Some(ArrangePlan::Tidy { align, distribute }) => exists|aligned: Vec<Operation>| #[trigger]
            host.ensures((&doc, HostEdit::Arrange(align)), aligned) && (if crate::operations::carried(
                doc.content(),
                aligned@,
            ) {
                exists|scratch: Doc, spread: Vec<Operation>| #[trigger]
                    host.ensures((&scratch, HostEdit::Arrange(distribute)), spread) && scratch.content()
                        == crate::operations::all_applied(doc.content(), aligned@)
                        && scratch.well_formed() && (r matches Some(operations) && operations@
                        == aligned@ + spread@)
            } else {
                r is None
            }),
    }
}

/// The operations of an arrange command. `host` carries a step out on a document.
pub fn arrange_operations<H: Fn(&Doc, HostEdit) -> Vec<Operation>>(
    doc: &Doc,
    ids: &Vec<NodeId>,
    operation: ArrangeOperation,
    spans: Option<CenterSpans>,
    host: H,
) -> (r: Option<Vec<Operation>>)
    requires
        doc.well_formed(),
        forall|seen: &Doc, edit: HostEdit|
            seen.well_formed() ==> #[trigger] host.requires((seen, edit)),
    ensures
        arranged(*doc, arrange_plan_of(operation, ids@.len(), spans), host, r),
{
    match arrange_plan(operation, ids.len(), spans) {
        None => None,
        Some(ArrangePlan::Nothing) => Some(Vec::new()),
        Some(ArrangePlan::One(step)) => Some(host(doc, HostEdit::Arrange(step))),
        Some(ArrangePlan::Tidy { align, distribute }) => {
            let mut operations = host(doc, HostEdit::Arrange(align));
            let ghost aligned = operations;
            assert(host.ensures((doc, HostEdit::Arrange(align)), aligned));
            let mut scratch = doc.copy();
            proof {
                crate::layer_context_ops::lemma_same_content(scratch, *doc);
            }
            match scratch.apply_all(&operations) {
                Err(_) => None,
                Ok(_) => {
                    let spread = host(&scratch, HostEdit::Arrange(distribute));
                    assert(host.ensures((&scratch, HostEdit::Arrange(distribute)), spread));
                    extend(&mut operations, &spread);
                    Some(operations)
                },
            }
        },
    }
}

/// The layers that turn a quarter further, each with the degrees it then shows;
/// a layer that shows no degrees stays as it is.
pub open spec fn turned(ids: Seq<NodeId>, degrees: Seq<Option<Scalar>>) -> Seq<(NodeId, Scalar)>
    decreases ids.len(),
{
    if ids.len() == 0 {
        Seq::empty()
    } else {
        let at = ids.len() - 1;
        let rest = turned(ids.drop_last(), degrees);
        if at < degrees.len() && degrees[at] is Some {
            rest.push((ids[at], degrees[at]->0))
        } else {
            rest
        }
    }
}

/// The rotations to write for a quarter turn. `degrees` holds, for every layer
/// that shows a rotation, the one that is a quarter further.
pub fn rotate_clockwise_operations(ids: &Vec<NodeId>, degrees: &Vec<Option<Scalar>>) -> (r: Vec<
    (NodeId, Scalar),
>)
    ensures
        r@ == turned(ids@, degrees@),
{
    let mut r: Vec<(NodeId, Scalar)> = Vec::new();
    let mut i: usize = 0;
    assert(ids@.take(0) =~= Seq::<NodeId>::empty());
    while i < ids.len()
        invariant
            i <= ids@.len(),
            r@ == turned(ids@.take(i as int), degrees@),
        decreases ids@.len() - i,
    {
        proof {
            assert(ids@.take(i + 1).drop_last() =~= ids@.take(i as int));
            assert(ids@.take(i + 1).last() == ids@[i as int]);
        }
        if i < degrees.len() {
            if let Some(further) = degrees[i] {
                r.push((ids[i], further));
            }
        }
        i = i + 1;
    }
    assert(ids@.take(ids@.len() as int) =~= ids@);
    r
}

/// The layers that are mirrored: those that are there and are not squeezed flat.
pub open spec fn mirrored_list(doc: Doc, ids: Seq<NodeId>, mirrored: Seq<Option<Transform>>) -> Seq<
    Operation,
>
    decreases ids.len(),
{
    if ids.len() == 0 {
        Seq::empty()
    } else {
        let at = ids.len() - 1;
        let rest = mirrored_list(doc, ids.drop_last(), mirrored);
        match crate::scene::find(doc.nodes@, ids[at]) {
            Some(node) => if at < mirrored.len() && mirrored[at] is Some {
                rest.push(
                    Operation::SetTransform {
                        id: ids[at],
                        old: node.transform,
                        new: mirrored[at]->0,
                    },
                )
            } else {
                rest
            },
            None => rest,
        }
    }
}

/// Mirrors the layers about the middle of the box around them all. `mirrored`
/// holds every layer's transform after that, and nothing at all where no layer
/// has a box.
pub fn flip_operations(doc: &Doc, ids: &Vec<NodeId>, mirrored: &Option<Vec<Option<Transform>>>) -> (
operations: Vec<Operation>)
    ensures
        operations@ == (match *mirrored {
            Some(mirrored) => mirrored_list(*doc, ids@, mirrored@),
            None => Seq::empty(),
        }),
{
    let mut operations: Vec<Operation> = Vec::new();
    let mirrored = match mirrored {
        Some(mirrored) => mirrored,
        None => {
            return operations;
        },
    };
    let mut i: usize = 0;
    assert(ids@.take(0) =~= Seq::<NodeId>::empty());
    while i < ids.len()
        invariant
            i <= ids@.len(),
            operations@ == mirrored_list(*doc, ids@.take(i as int), mirrored@),
        decreases ids@.len() - i,
    {
        proof {
            assert(ids@.take(i + 1).drop_last() =~= ids@.take(i as int));
            assert(ids@.take(i + 1).last() == ids@[i as int]);
        }
        let id = ids[i];
        if let Some(node) = doc.get(id) {
            if i < mirrored.len() {
                if let Some(new) = mirrored[i] {
                    operations.push(Operation::SetTransform { id, old: node.transform, new });
                }
            }
        }
        i = i + 1;
    }
    assert(ids@.take(ids@.len() as int) =~= ids@);
    operations
}

// ---------------------------------------------------------------------------
// Auto layout
// ---------------------------------------------------------------------------

/// What the host prepares for adding a layout.
#[derive(Debug, PartialEq)]
pub struct AddLayoutFacts {
    pub selection_roots: Vec<NodeId>,
    /// For a single layer.
    pub single: LayoutFacts,
    /// Several layers in a new frame.
    pub grouped: Result<Grouped, LayerError>,
    /// For that frame, once it is there.
    pub after: LayoutFacts,
}

/// A single layer gets the layout, or comes into a frame that does; what was
/// made is selected, or else the layer.
pub open spec fn single_layout(
    doc: Doc,
    id: NodeId,
    facts: AddLayoutFacts,
    r: Result<LayerEdit, LayerError>,
) -> bool {
    exists|built: Result<Vec<Operation>, LayerError>| #[trigger]
        crate::layer_context_ops::auto_layout_outcome(
            doc,
            id,
            Some(LayoutMode::Horizontal),
            facts.selection_roots@,
            facts.single,
            built,
        ) && (match built {
            Err(error) => r == Err::<LayerEdit, LayerError>(error),
            Ok(operations) => {
                let roots = crate::layer_context_ops::root_creations(operations@, operations@);
                r matches Ok(edit) && edit.operations == operations && (edit.selection matches Some(
                    selection,
                ) && selection@ == (if roots.len() == 0 {
                    seq![id]
                } else {
                    roots
                }))
            },
        })
}

/// Several layers come into a new frame, which gets the layout and is selected.
pub open spec fn group_layout(
    doc: Doc,
    facts: AddLayoutFacts,
    r: Result<LayerEdit, LayerError>,
) -> bool {
    match facts.grouped {
        Err(error) => r == Err::<LayerEdit, LayerError>(error),
        Ok(grouped) => if !crate::operations::carried(doc.content(), grouped.operations@) {
            r == Err::<LayerEdit, LayerError>(LayerError::NotApplied)
        } else {
            exists|scratch: Doc, laid: Result<Vec<Operation>, LayerError>| #[trigger]
                crate::layer_context_ops::auto_layout_outcome(
                    scratch,
                    grouped.group,
                    Some(LayoutMode::Horizontal),
                    facts.selection_roots@,
                    facts.after,
                    laid,
                ) && scratch.content() == crate::operations::all_applied(
                    doc.content(),
                    grouped.operations@,
                ) && (match laid {
                    Err(error) => r == Err::<LayerEdit, LayerError>(error),
                    Ok(more) => r matches Ok(edit) && edit.operations@ == grouped.operations@
                        + more@ && (edit.selection matches Some(selection) && selection@ == seq![
                        grouped.group,
                    ]),
                })
        },
    }
}

/// What adding a layout to the selected layers comes to.
pub open spec fn add_layout_outcome(
    doc: Doc,
    ids: Seq<NodeId>,
    facts: AddLayoutFacts,
    r: Result<LayerEdit, LayerError>,
) -> bool {
    if crate::layer_context_ops::any_locked(doc, ids) {
        r == Err::<LayerEdit, LayerError>(LayerError::SelectedLockedOrPage)
    } else if ids.len() == 1 {
        single_layout(doc, ids[0], facts, r)
    } else {
        group_layout(doc, facts, r)
    }
}

pub(crate) fn copy_operations(operations: &Vec<Operation>) -> (copy: Vec<Operation>)
    ensures
        copy@ == operations@,
{
    let mut copy: Vec<Operation> = Vec::new();
    extend(&mut copy, operations);
    assert(copy@ =~= operations@);
    copy
}

/// Adds a layout to the selected layers.
pub fn add_auto_layout_edit(doc: &Doc, ids: &Vec<NodeId>, facts: &AddLayoutFacts) -> (r: Result<
    LayerEdit,
    LayerError,
>)
    requires
        doc.well_formed(),
    ensures
        add_layout_outcome(*doc, ids@, *facts, r),
{
    if any_uneditable(doc, ids) {
        return Err(LayerError::SelectedLockedOrPage);
    }
    if ids.len() == 1 {
        let id = ids[0];
        let built = auto_layout(
            doc,
            id,
            Some(LayoutMode::Horizontal),
            &facts.selection_roots,
            &facts.single,
        );
        let ghost outcome = built;
        assert(crate::layer_context_ops::auto_layout_outcome(
            *doc,
            id,
            Some(LayoutMode::Horizontal),
            facts.selection_roots@,
            facts.single,
            outcome,
        ));
        return match built {
            Err(error) => Err(error),
            Ok(operations) => {
                let roots = created_roots(&operations);
                let selection = if roots.len() == 0 {
                    let mut selection: Vec<NodeId> = Vec::new();
                    selection.push(id);
                    assert(selection@ =~= seq![id]);
                    selection
                } else {
                    roots
                };
                Ok(LayerEdit { operations, selection: Some(selection) })
            },
        };
    }
    match &facts.grouped {
        Err(error) => Err(error.copy()),
        Ok(grouped) => {
            let mut scratch = doc.copy();
            proof {
                crate::layer_context_ops::lemma_same_content(scratch, *doc);
            }
            match scratch.apply_all(&grouped.operations) {
                Err(_) => Err(LayerError::NotApplied),
                Ok(_) => {
                    let laid = auto_layout(
                        &scratch,
                        grouped.group,
                        Some(LayoutMode::Horizontal),
                        &facts.selection_roots,
                        &facts.after,
                    );
                    assert(crate::layer_context_ops::auto_layout_outcome(
                        scratch,
                        grouped.group,
                        Some(LayoutMode::Horizontal),
                        facts.selection_roots@,
                        facts.after,
                        laid,
                    ));
                    match laid {
                        Err(error) => Err(error),
                        Ok(more) => {
                            let mut operations = copy_operations(&grouped.operations);
                            extend(&mut operations, &more);
                            let mut selection: Vec<NodeId> = Vec::new();
                            selection.push(grouped.group);
                            assert(selection@ =~= seq![grouped.group]);
                            Ok(LayerEdit { operations, selection: Some(selection) })
                        },
                    }
                },
            }
        },
    }
}

pub(crate) fn copy_ids(ids: &Vec<NodeId>) -> (copy: Vec<NodeId>)
    ensures
        copy@ == ids@,
{
    let mut copy: Vec<NodeId> = Vec::new();
    let mut i: usize = 0;
    while i < ids.len()
        invariant
            i <= ids@.len(),
            copy@ == ids@.take(i as int),
        decreases ids@.len() - i,
    {
        copy.push(ids[i]);
        assert(copy@ =~= ids@.take(i + 1));
        i = i + 1;
    }
    assert(ids@.take(ids@.len() as int) =~= ids@);
    copy
}

/// The layers of a target that meets the selection of the open document; no
/// layers where it does not.
pub open spec fn current_target(panel: FantaDesignPanel, target: DesignTarget) -> Option<
    Seq<NodeId>,
> {
    match panel.open {
        Some(open) => if meets_selection(target, open.doc.selection@) {
            Some(open.doc.selection@)
        } else {
            None
        },
        None => None,
    }
}

impl FantaDesignPanel {
    /// The layers of a target, where it is still what is selected.
    pub fn target_ids(&self, target: &DesignTarget) -> (ids: Option<Vec<NodeId>>)
        ensures
            match current_target(*self, *target) {
                Some(wanted) => ids matches Some(ids) && ids@ == wanted,
                None => ids is None,
            },
    {
        match &self.open {
            Some(open) => if target_matches_selection(target, &open.doc.selection) {
                Some(copy_ids(&open.doc.selection))
            } else {
                None
            },
            None => None,
        }
    }

    /// Adds a layout to the target, where it is still what is selected.
    pub fn add_auto_layout(&mut self, target: &DesignTarget, facts: &AddLayoutFacts) -> (change:
        DocChange)
        requires
            old(self).valid(),
        ensures
            final(self).valid(),
            match current_target(*old(self), *target) {
                Some(ids) => if ids.len() == 0 {
                    *final(self) == *old(self) && change is Unchanged
                } else {
                    exists|built: Result<LayerEdit, LayerError>| #[trigger]
                        layout_built(*old(self), ids, *facts, built)
                            && crate::panel::command_outcome(
                            *old(self),
                            *final(self),
                            "Add auto layout"@,
                            built,
                            change,
                        )
                },
                None => *final(self) == *old(self) && change is Unchanged,
            },
    {
        let ids = match self.target_ids(target) {
            Some(ids) => ids,
            None => {
                return DocChange::Unchanged;
            },
        };
        if ids.len() == 0 {
            return DocChange::Unchanged;
        }
        let built: Result<LayerEdit, LayerError> = match &self.open {
            None => {
                return DocChange::Unchanged;
            },
            Some(open) => if open.editable {
                add_auto_layout_edit(&open.doc, &ids, facts)
            } else {
                Err(LayerError::ReadOnly)
            },
        };
        assert(layout_built(*self, ids@, *facts, built));
        self.run_layer_edit("Add auto layout", built)
    }
}

/// What is built on the open document; one that may not be edited is not asked.
pub open spec fn layout_built(
    panel: FantaDesignPanel,
    ids: Seq<NodeId>,
    facts: AddLayoutFacts,
    built: Result<LayerEdit, LayerError>,
) -> bool {
    panel.open matches Some(open) && open.editable ==> add_layout_outcome(
        panel.open->0.doc,
        ids,
        facts,
        built,
    )
}

// ---------------------------------------------------------------------------
// Laws
// ---------------------------------------------------------------------------

/// A target that is not the selection any more, in layers or in order, changes
/// nothing.
pub proof fn lemma_stale_target_refused(target: DesignTarget, selection: Seq<NodeId>, other: Seq<NodeId>)
    requires
        meets_selection(target, selection),
        selection != other,
    ensures
        !meets_selection(target, other),
{
    if meets_selection(target, other) {
        assert(known(selection) == known(other));
        assert(selection.len() == known(selection).len());
        assert(other.len() == known(other).len());
        assert forall|i: int| 0 <= i < selection.len() implies selection[i] == other[i] by {
            assert(known(selection)[i] == known(other)[i]);
        }
        assert(selection =~= other);
    }
}

/// Setting the box of several layers to where it already is does nothing, and a
/// layer that cannot be moved keeps all of them where they are.
pub proof fn lemma_joint_move_all_or_nothing(
    doc: Doc,
    ids: Seq<NodeId>,
    property: DesignProperty,
    value: DesignValue,
    facts: TargetFacts,
    r: Option<TargetedEdit>,
)
    requires
        targeted_outcome(doc, ids, property, value, facts, r),
        is_joint(property),
    ensures
        r matches Some(TargetedEdit::Moved(operations)) ==> operations@.len() == 0
            || operations@.len() == ids.len(),
        !(r matches Some(TargetedEdit::Each(_))),
{
}

} // verus!
