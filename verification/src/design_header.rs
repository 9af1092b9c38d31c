//! The inspector's header: what it offers for the selected layers, and what its
//! commands do.

use vstd::prelude::*;

use crate::design_targets::{copy_ids, copy_operations, DesignTarget};
use crate::design_values::{design_kind, DesignKind};
use crate::document::{BooleanOp, CanvasNode, Doc, NodeData};
use crate::ids::NodeId;
use crate::layer_context_ops::{
    any_uneditable, created_roots, is_component_root, is_section, Grouped, LayerAction,
};
use crate::layer_errors::LayerError;
use crate::layer_simple::{simple, SimpleFacts};
use crate::operations::{extend, Operation};
use crate::panel::{record, DocChange, FantaDesignPanel, LayerEdit, OpenDocument};

verus! {

// ---------------------------------------------------------------------------
// Matching layers
// ---------------------------------------------------------------------------

/// The layers of a page, or of the whole document.
pub open spec fn page_layers(doc: Doc, page: Option<NodeId>) -> Seq<NodeId> {
    crate::scene::forest(
        doc.nodes@,
        crate::scene::ids_of(crate::scene::children(doc.nodes@, page)),
        doc.nodes@.len(),
    )
}

pub open spec fn is_of_kind(doc: Doc, id: NodeId, kind: DesignKind) -> bool {
    crate::scene::find(doc.nodes@, id) matches Some(node) && crate::design_values::design_kind_of(
        doc,
        id,
        *node.data,
    ) == kind
}

/// The layers of a list that are of a kind.
pub open spec fn of_kind(doc: Doc, ids: Seq<NodeId>, kind: DesignKind) -> Seq<NodeId>
    decreases ids.len(),
{
    if ids.len() == 0 {
        Seq::empty()
    } else {
        let rest = of_kind(doc, ids.drop_last(), kind);
        if is_of_kind(doc, ids.last(), kind) {
            rest.push(ids.last())
        } else {
            rest
        }
    }
}

/// The layers of the page that are of a layer's kind.
pub open spec fn matching(doc: Doc, id: NodeId, page: Option<NodeId>) -> Seq<NodeId> {
    match crate::scene::find(doc.nodes@, id) {
        Some(node) => of_kind(
            doc,
            page_layers(doc, page),
            crate::design_values::design_kind_of(doc, id, *node.data),
        ),
        None => Seq::empty(),
    }
}

pub fn matching_design_layers(doc: &Doc, id: NodeId, page: Option<NodeId>) -> (ids: Vec<NodeId>)
    ensures
        ids@ == matching(*doc, id, page),
{
    let mut found: Vec<NodeId> = Vec::new();
    let kind = match doc.get(id) {
        Some(node) => design_kind(doc, id, &node.data),
        None => {
            return found;
        },
    };
    let roots = doc.children_of(page);
    let all = doc.descendants_of_all(&roots);
    let mut i: usize = 0;
    assert(all@.take(0) =~= Seq::<NodeId>::empty());
    while i < all.len()
        invariant
            i <= all@.len(),
            found@ == of_kind(*doc, all@.take(i as int), kind),
        decreases all@.len() - i,
    {
        proof {
            assert(all@.take(i + 1).drop_last() =~= all@.take(i as int));
            assert(all@.take(i + 1).last() == all@[i as int]);
        }
        if let Some(node) = doc.get(all[i]) {
            if design_kind(doc, all[i], &node.data) == kind {
                found.push(all[i]);
            }
        }
        i = i + 1;
    }
    assert(all@.take(all@.len() as int) =~= all@);
    found
}

// ---------------------------------------------------------------------------
// What is offered
// ---------------------------------------------------------------------------

#[derive(Clone, Copy, Debug, PartialEq, Eq, Structural)]
pub enum HeaderControl {
    SelectMatchingLayers,
    CreateComponent,
    UseAsMask,
    /// A menu that combines the layers, flattens the first, or both.
    BooleanFlatten { boolean: bool, flatten: bool },
    EditObject,
}

#[derive(Clone, Copy, Debug, PartialEq, Eq, Structural)]
pub enum HeaderTitle {
    /// So many layers.
    Count(usize),
    Section,
    Kind(DesignKind),
}

#[derive(Clone, Copy, Debug, PartialEq, Eq, Structural)]
pub enum TitleItem {
    Frame,
    Section,
}

#[derive(Debug, PartialEq)]
pub struct SelectionHeader {
    pub title: HeaderTitle,
    pub controls: Vec<HeaderControl>,
    pub menu: Vec<TitleItem>,
}

/// Which commands the layers panel offers for the first selected layer.
#[derive(Clone, Copy, Debug, PartialEq, Eq, Structural)]
pub struct OfferedActions {
    pub create_component: bool,
    pub use_as_mask: bool,
    pub flatten: bool,
    pub convert_to_frame: bool,
    pub convert_to_section: bool,
}

/// All layers are outlines with one parent.
pub open spec fn combinable(doc: Doc, ids: Seq<NodeId>, parent: Option<NodeId>) -> bool {
    ids.len() > 1 && forall|i: int|
        0 <= i < ids.len() ==> (crate::scene::find(doc.nodes@, #[trigger] ids[i]) matches Some(node)
            && node.parent == parent && *node.data is Vector)
}

/// The controls of the header, in order.
pub open spec fn controls_of(
    doc: Doc,
    ids: Seq<NodeId>,
    node: CanvasNode,
    page: Option<NodeId>,
    editable: bool,
    actions: OfferedActions,
) -> Seq<HeaderControl> {
    let first = ids[0];
    let alone = ids.len() == 1;
    let boolean = combinable(doc, ids, node.parent);
    let matched = if alone && matching(doc, first, page).len() > 1 {
        seq![HeaderControl::SelectMatchingLayers]
    } else {
        Seq::empty()
    };
    if !editable || crate::layer_context_ops::any_locked(doc, ids) {
        matched
    } else {
        matched + (if ids.len() > 1 || !crate::layer_context_ops::draws_component(doc, first)
            && actions.create_component {
            seq![HeaderControl::CreateComponent]
        } else {
            Seq::empty()
        }) + (if alone && actions.use_as_mask {
            seq![HeaderControl::UseAsMask]
        } else {
            Seq::empty()
        }) + (if boolean || actions.flatten {
            seq![HeaderControl::BooleanFlatten { boolean: boolean, flatten: actions.flatten }]
        } else {
            Seq::empty()
        }) + (if alone && (*node.data is Vector || *node.data is Text) {
            seq![HeaderControl::EditObject]
        } else {
            Seq::empty()
        })
    }
}

pub open spec fn title_of(doc: Doc, ids: Seq<NodeId>, node: CanvasNode) -> HeaderTitle {
    if ids.len() > 1 {
        HeaderTitle::Count(ids.len() as usize)
    } else if crate::layer_context_ops::marks_section(crate::meta::json_texts(node.meta)) {
        HeaderTitle::Section
    } else {
        HeaderTitle::Kind(crate::design_values::design_kind_of(doc, ids[0], *node.data))
    }
}

/// What a single group can be turned into.
pub open spec fn menu_of(
    doc: Doc,
    ids: Seq<NodeId>,
    node: CanvasNode,
    editable: bool,
    actions: OfferedActions,
) -> Seq<TitleItem> {
    if editable && !crate::layer_context_ops::any_locked(doc, ids) && ids.len() == 1
        && *node.data is Group {
        (if actions.convert_to_frame {
            seq![TitleItem::Frame]
        } else {
            Seq::empty()
        }) + (if actions.convert_to_section {
            seq![TitleItem::Section]
        } else {
            Seq::empty()
        })
    } else {
        Seq::empty()
    }
}

/// The header for a selection; none where nothing is selected or the first layer
/// is gone.
pub open spec fn header_outcome(
    doc: Doc,
    ids: Seq<NodeId>,
    page: Option<NodeId>,
    editable: bool,
    actions: OfferedActions,
    r: Option<SelectionHeader>,
) -> bool {
    if ids.len() == 0 {
        r is None
    } else {
        match crate::scene::find(doc.nodes@, ids[0]) {
            None => r is None,
            Some(node) => {
                &&& r matches Some(header)
                &&& header.title == title_of(doc, ids, node)
                &&& header.controls@ == controls_of(doc, ids, node, page, editable, actions)
                &&& header.menu@ == menu_of(doc, ids, node, editable, actions)
            },
        }
    }
}

fn can_combine(doc: &Doc, ids: &Vec<NodeId>, parent: Option<NodeId>) -> (r: bool)
    ensures
        r == combinable(*doc, ids@, parent),
{
    if ids.len() <= 1 {
        return false;
    }
    let mut i: usize = 0;
    while i < ids.len()
        invariant
            i <= ids@.len(),
            ids@.len() > 1,
            forall|k: int|
                0 <= k < i ==> (crate::scene::find(doc.nodes@, #[trigger] ids@[k]) matches Some(
                    node,
                ) && node.parent == parent && *node.data is Vector),
        decreases ids@.len() - i,
    {
        let fits = match doc.get(ids[i]) {
            Some(node) => {
                let outline = match &*node.data {
                    NodeData::Vector(_) => true,
                    _ => false,
                };
                let same = match (node.parent, parent) {
                    (Some(left), Some(right)) => left == right,
                    (None, None) => true,
                    _ => false,
                };
                outline && same
            },
            None => false,
        };
        if !fits {
            assert(!(crate::scene::find(doc.nodes@, ids@[i as int]) matches Some(node)
                && node.parent == parent && *node.data is Vector));
            return false;
        }
        i = i + 1;
    }
    true
}

pub fn selection_header_for_doc(
    doc: &Doc,
    ids: &Vec<NodeId>,
    page: Option<NodeId>,
    editable: bool,
    actions: &OfferedActions,
) -> (r: Option<SelectionHeader>)
    ensures
        header_outcome(*doc, ids@, page, editable, *actions, r),
{
    if ids.len() == 0 {
        return None;
    }
    let first = ids[0];
    let node = match doc.get(first) {
        Some(node) => node,
        None => {
            return None;
        },
    };
    let alone = ids.len() == 1;
    let can_edit = editable && !any_uneditable(doc, ids);
    let (outline, text, group) = match &*node.data {
        NodeData::Vector(_) => (true, false, false),
        NodeData::Text(_) => (false, true, false),
        NodeData::Group(_) => (false, false, true),
        _ => (false, false, false),
    };
    let mut controls: Vec<HeaderControl> = Vec::new();
    if alone {
        let matched = matching_design_layers(doc, first, page);
        if matched.len() > 1 {
            controls.push(HeaderControl::SelectMatchingLayers);
        }
    }
    let mut menu: Vec<TitleItem> = Vec::new();
    if can_edit {
        if !alone || !is_component_root(doc, first) && actions.create_component {
            controls.push(HeaderControl::CreateComponent);
        }
        if alone && actions.use_as_mask {
            controls.push(HeaderControl::UseAsMask);
        }
        let boolean = can_combine(doc, ids, node.parent);
        if boolean || actions.flatten {
            controls.push(HeaderControl::BooleanFlatten { boolean, flatten: actions.flatten });
        }
        if alone && (outline || text) {
            controls.push(HeaderControl::EditObject);
        }
        if alone && group {
            if actions.convert_to_frame {
                menu.push(TitleItem::Frame);
            }
            if actions.convert_to_section {
                menu.push(TitleItem::Section);
            }
        }
    }
    assert(controls@ =~= controls_of(*doc, ids@, *node, page, editable, *actions));
    assert(menu@ =~= menu_of(*doc, ids@, *node, editable, *actions));
    let title = if !alone {
        HeaderTitle::Count(ids.len())
    } else if is_section(node) {
        HeaderTitle::Section
    } else {
        HeaderTitle::Kind(design_kind(doc, first, &node.data))
    };
    Some(SelectionHeader { title, controls, menu })
}

// ---------------------------------------------------------------------------
// Commands
// ---------------------------------------------------------------------------

#[derive(Clone, Copy, Debug, PartialEq, Eq, Structural)]
pub enum HeaderCommand {
    SelectMatchingLayers,
    CreateComponent,
    UseAsMask,
    Flatten,
    Title(TitleItem),
    Boolean(BooleanOp),
    EditObject,
    /// A command that the header never offers.
    Unsupported,
}

/// The control carries the command out.
pub open spec fn carries(control: HeaderControl, command: HeaderCommand) -> bool {
    match command {
        HeaderCommand::SelectMatchingLayers => control == HeaderControl::SelectMatchingLayers,
        HeaderCommand::CreateComponent => control == HeaderControl::CreateComponent,
        HeaderCommand::UseAsMask => control == HeaderControl::UseAsMask,
        HeaderCommand::Flatten => control matches HeaderControl::BooleanFlatten { flatten, .. }
            && flatten,
        HeaderCommand::Boolean(_) => control matches HeaderControl::BooleanFlatten { boolean, .. }
            && boolean,
        HeaderCommand::EditObject => control == HeaderControl::EditObject,
        _ => false,
    }
}

/// The header offers the command.
pub open spec fn offers_command(header: SelectionHeader, command: HeaderCommand) -> bool {
    match command {
        HeaderCommand::Title(item) => header.menu@.contains(item),
        _ => exists|i: int|
            0 <= i < header.controls@.len() && carries(#[trigger] header.controls@[i], command),
    }
}

pub fn header_supports(header: &SelectionHeader, command: HeaderCommand) -> (r: bool)
    ensures
        r == offers_command(*header, command),
{
    if let HeaderCommand::Title(item) = command {
        let mut i: usize = 0;
        while i < header.menu.len()
            invariant
                i <= header.menu@.len(),
                command == HeaderCommand::Title(item),
                forall|k: int| 0 <= k < i ==> header.menu@[k] != item,
            decreases header.menu@.len() - i,
        {
            if header.menu[i] == item {
                assert(header.menu@[i as int] == item);
                return true;
            }
            i = i + 1;
        }
        return false;
    }
    let mut i: usize = 0;
    while i < header.controls.len()
        invariant
            i <= header.controls@.len(),
            !(command is Title),
            forall|k: int| 0 <= k < i ==> !carries(#[trigger] header.controls@[k], command),
        decreases header.controls@.len() - i,
    {
        let control = header.controls[i];
        let here = match command {
            HeaderCommand::SelectMatchingLayers => control == HeaderControl::SelectMatchingLayers,
            HeaderCommand::CreateComponent => control == HeaderControl::CreateComponent,
            HeaderCommand::UseAsMask => control == HeaderControl::UseAsMask,
            HeaderCommand::Flatten => match control {
                HeaderControl::BooleanFlatten { flatten, .. } => flatten,
                _ => false,
            },
            HeaderCommand::Boolean(_) => match control {
                HeaderControl::BooleanFlatten { boolean, .. } => boolean,
                _ => false,
            },
            HeaderCommand::EditObject => control == HeaderControl::EditObject,
            _ => false,
        };
        if here {
            assert(carries(header.controls@[i as int], command));
            return true;
        }
        i = i + 1;
    }
    false
}

/// A document after layers were combined, and the layer that came of it.
#[derive(Debug, PartialEq)]
pub struct MadeBoolean {
    pub operations: Vec<Operation>,
    pub created: NodeId,
}

/// What the host prepares for a command of the header.
#[derive(Debug, PartialEq)]
pub struct HeaderFacts {
    pub actions: OfferedActions,
    /// The words for the command in notices.
    pub label: String,
    pub simple: SimpleFacts,
    /// All selected layers in a new frame.
    pub grouped: Result<Grouped, LayerError>,
    /// The operations that make a component of that frame, once it is there.
    pub component: Vec<Operation>,
    /// The selected layers combined, in paint order.
    pub made: Option<MadeBoolean>,
}

/// What is left for the host.
#[derive(Clone, Copy, Debug, PartialEq, Eq, Structural)]
pub enum HeaderEffect {
    /// The command was stale or is not offered.
    Rejected,
    /// The selection may have changed.
    Selected(bool),
    Edited(DocChange),
    OpenText(NodeId),
    EditOutline,
    /// Say that combining the layers is not available.
    BooleanUnavailable,
}

/// The rank of a layer among its siblings; one that is gone comes first.
pub open spec fn paint_rank(doc: Doc, id: NodeId) -> int {
    match crate::scene::find(doc.nodes@, id) {
        Some(node) => node.index.rank as int,
        None => i64::MIN - 1,
    }
}

pub open spec fn operand_inserted(doc: Doc, ids: Seq<NodeId>, id: NodeId) -> Seq<NodeId>
    decreases ids.len(),
{
    if ids.len() == 0 || paint_rank(doc, ids.last()) <= paint_rank(doc, id) {
        ids.push(id)
    } else {
        operand_inserted(doc, ids.drop_last(), id).push(ids.last())
    }
}

/// The layers in the order of their places.
pub open spec fn operands_of(doc: Doc, ids: Seq<NodeId>) -> Seq<NodeId>
    decreases ids.len(),
{
    if ids.len() == 0 {
        Seq::empty()
    } else {
        operand_inserted(doc, operands_of(doc, ids.drop_last()), ids.last())
    }
}

proof fn lemma_operand_inserted_at(doc: Doc, ids: Seq<NodeId>, id: NodeId, at: int)
    requires
        0 <= at <= ids.len(),
        at > 0 ==> paint_rank(doc, ids[at - 1]) <= paint_rank(doc, id),
        forall|k: int|
            at <= k < ids.len() ==> paint_rank(doc, #[trigger] ids[k]) > paint_rank(doc, id),
    ensures
        operand_inserted(doc, ids, id) == ids.insert(at, id),
    decreases ids.len(),
{
    if at == ids.len() {
        assert(ids.insert(at, id) =~= ids.push(id));
    } else {
        let front = ids.drop_last();
        assert(paint_rank(doc, ids[ids.len() - 1]) > paint_rank(doc, id));
        assert forall|k: int| at <= k < front.len() implies paint_rank(doc, #[trigger] front[k])
            > paint_rank(doc, id) by {
            assert(front[k] == ids[k]);
        }
        lemma_operand_inserted_at(doc, front, id, at);
        assert(front.insert(at, id).push(ids.last()) =~= ids.insert(at, id));
    }
}

fn paints_behind(doc: &Doc, a: NodeId, b: NodeId) -> (r: bool)
    ensures
        r == (paint_rank(*doc, a) > paint_rank(*doc, b)),
{
    match (doc.get(a), doc.get(b)) {
        (Some(left), Some(right)) => left.index.rank > right.index.rank,
        (Some(_), None) => true,
        (None, _) => false,
    }
}

/// The layers to combine, in the order of their places.
pub fn boolean_operands(doc: &Doc, ids: &Vec<NodeId>) -> (sorted: Vec<NodeId>)
    ensures
        sorted@ == operands_of(*doc, ids@),
{
    let mut sorted: Vec<NodeId> = Vec::new();
    let mut i: usize = 0;
    assert(ids@.take(0) =~= Seq::<NodeId>::empty());
    while i < ids.len()
        invariant
            i <= ids@.len(),
            sorted@ == operands_of(*doc, ids@.take(i as int)),
        decreases ids@.len() - i,
    {
        let id = ids[i];
        let mut at: usize = sorted.len();
        while at > 0 && paints_behind(doc, sorted[at - 1], id)
            invariant
                at <= sorted@.len(),
                forall|k: int|
                    at <= k < sorted@.len() ==> paint_rank(*doc, #[trigger] sorted@[k])
                        > paint_rank(*doc, id),
            decreases at,
        {
            at = at - 1;
        }
        proof {
            lemma_operand_inserted_at(*doc, sorted@, id, at as int);
            assert(ids@.take(i + 1).drop_last() =~= ids@.take(i as int));
            assert(ids@.take(i + 1).last() == id);
        }
        sorted.insert(at, id);
        i = i + 1;
    }
    assert(ids@.take(ids@.len() as int) =~= ids@);
    sorted
}

/// The command of a layer that stands behind a command of the header.
pub open spec fn layer_action(command: HeaderCommand) -> LayerAction {
    match command {
        HeaderCommand::UseAsMask => LayerAction::UseAsMask,
        HeaderCommand::Flatten => LayerAction::Flatten,
        HeaderCommand::Title(TitleItem::Frame) => LayerAction::ConvertToFrame,
        _ => LayerAction::ConvertToSection,
    }
}

/// A command on the first layer; what it creates is selected, or else what was.
pub open spec fn action_built(
    doc: Doc,
    ids: Seq<NodeId>,
    action: LayerAction,
    facts: SimpleFacts,
    r: Result<LayerEdit, LayerError>,
) -> bool {
    exists|built: Result<Vec<Operation>, LayerError>| #[trigger]
        crate::layer_simple::simple_outcome(doc, ids[0], action, facts, built) && (match built {
            Err(error) => r == Err::<LayerEdit, LayerError>(error),
            Ok(operations) => {
                let roots = crate::layer_context_ops::root_creations(operations@, operations@);
                r matches Ok(edit) && edit.operations == operations && (edit.selection matches Some(
                    selection,
                ) && selection@ == (if roots.len() == 0 {
                    ids
                } else {
                    roots
                }))
            },
        })
}

/// A single layer becomes a component; one that is one already is refused.
pub open spec fn component_built(
    doc: Doc,
    ids: Seq<NodeId>,
    facts: SimpleFacts,
    r: Result<LayerEdit, LayerError>,
) -> bool {
    exists|built: Result<Vec<Operation>, LayerError>| #[trigger]
        crate::layer_simple::simple_outcome(
            doc,
            ids[0],
            LayerAction::CreateComponent,
            facts,
            built,
        ) && (match built {
            Err(error) => r == Err::<LayerEdit, LayerError>(error),
            Ok(operations) => if operations@.len() == 0 {
                r == Err::<LayerEdit, LayerError>(LayerError::AlreadyComponent)
            } else {
                let roots = crate::layer_context_ops::root_creations(operations@, operations@);
                r matches Ok(edit) && edit.operations == operations && (edit.selection matches Some(
                    selection,
                ) && selection@ == (if roots.len() == 0 {
                    ids
                } else {
                    roots
                }))
            },
        })
}

/// Several layers come into a new frame, which becomes a component and is
/// selected.
pub open spec fn framed_component(
    doc: Doc,
    facts: HeaderFacts,
    r: Result<LayerEdit, LayerError>,
) -> bool {
    match facts.grouped {
        Err(error) => r == Err::<LayerEdit, LayerError>(error),
        Ok(grouped) => if !crate::operations::carried(doc.content(), grouped.operations@) {
            r == Err::<LayerEdit, LayerError>(LayerError::NotApplied)
        } else if facts.component@.len() == 0 {
            r == Err::<LayerEdit, LayerError>(LayerError::NoComponent)
        } else {
            r matches Ok(edit) && edit.operations@ == grouped.operations@ + facts.component@ && (
            edit.selection matches Some(selection) && selection@ == seq![grouped.group])
        },
    }
}

/// What a command builds on the open document; one that may not be edited is not
/// asked.
pub open spec fn header_built(
    open: OpenDocument,
    ids: Seq<NodeId>,
    command: HeaderCommand,
    facts: HeaderFacts,
    r: Result<LayerEdit, LayerError>,
) -> bool {
    open.editable ==> match command {
        HeaderCommand::CreateComponent => if ids.len() == 1 {
            component_built(open.doc, ids, facts.simple, r)
        } else {
            framed_component(open.doc, facts, r)
        },
        _ => action_built(open.doc, ids, layer_action(command), facts.simple, r),
    }
}

fn selected_after(operations: &Vec<Operation>, ids: &Vec<NodeId>) -> (selection: Vec<NodeId>)
    ensures
        ({
            let roots = crate::layer_context_ops::root_creations(operations@, operations@);
            selection@ == (if roots.len() == 0 {
                ids@
            } else {
                roots
            })
        }),
{
    let roots = created_roots(operations);
    if roots.len() == 0 {
        copy_ids(ids)
    } else {
        roots
    }
}

fn build_header_edit(
    doc: &Doc,
    ids: &Vec<NodeId>,
    command: HeaderCommand,
    facts: &HeaderFacts,
) -> (r: Result<LayerEdit, LayerError>)
    requires
        doc.well_formed(),
        ids@.len() > 0,
        crate::layer_simple::children_measured(*doc, ids@[0], facts.simple),
    ensures
        match command {
            HeaderCommand::CreateComponent => if ids@.len() == 1 {
                component_built(*doc, ids@, facts.simple, r)
            } else {
                framed_component(*doc, *facts, r)
            },
            _ => action_built(*doc, ids@, layer_action(command), facts.simple, r),
        },
{
    if let HeaderCommand::CreateComponent = command {
        if ids.len() == 1 {
            let built = simple(doc, ids[0], LayerAction::CreateComponent, &facts.simple);
            assert(crate::layer_simple::simple_outcome(
                *doc,
                ids@[0],
                LayerAction::CreateComponent,
                facts.simple,
                built,
            ));
            return match built {
                Err(error) => Err(error),
                Ok(operations) => {
                    if operations.len() == 0 {
                        return Err(LayerError::AlreadyComponent);
                    }
                    let selection = selected_after(&operations, ids);
                    Ok(LayerEdit { operations, selection: Some(selection) })
                },
            };
        }
        return match &facts.grouped {
            Err(error) => Err(error.copy()),
            Ok(grouped) => {
                let mut scratch = doc.copy();
                proof {
                    crate::layer_context_ops::lemma_same_content(scratch, *doc);
                }
                match scratch.apply_all(&grouped.operations) {
                    Err(_) => Err(LayerError::NotApplied),
                    Ok(_) => {
                        if facts.component.len() == 0 {
                            return Err(LayerError::NoComponent);
                        }
                        let mut operations = copy_operations(&grouped.operations);
                        extend(&mut operations, &facts.component);
                        let mut selection: Vec<NodeId> = Vec::new();
                        selection.push(grouped.group);
                        assert(selection@ =~= seq![grouped.group]);
                        Ok(LayerEdit { operations, selection: Some(selection) })
                    },
                }
            },
        };
    }
    let action = match command {
        HeaderCommand::UseAsMask => LayerAction::UseAsMask,
        HeaderCommand::Flatten => LayerAction::Flatten,
        HeaderCommand::Title(TitleItem::Frame) => LayerAction::ConvertToFrame,
        _ => LayerAction::ConvertToSection,
    };
    let built = simple(doc, ids[0], action, &facts.simple);
    assert(crate::layer_simple::simple_outcome(*doc, ids@[0], action, facts.simple, built));
    match built {
        Err(error) => Err(error),
        Ok(operations) => {
            let selection = selected_after(&operations, ids);
            Ok(LayerEdit { operations, selection: Some(selection) })
        },
    }
}

/// The layers were combined into one that holds as many as there were.
pub open spec fn combines(doc: Doc, ids: Seq<NodeId>, made: Option<MadeBoolean>) -> bool {
    made matches Some(made) && crate::operations::carried(doc.content(), made.operations@)
        && crate::content_walk::children_of_content(
        crate::operations::all_applied(doc.content(), made.operations@),
        made.created,
    ) == ids.len()
}

/// What a command of the header does to the panel.
pub open spec fn header_effect(
    before: FantaDesignPanel,
    after: FantaDesignPanel,
    target: DesignTarget,
    command: HeaderCommand,
    page: Option<NodeId>,
    facts: HeaderFacts,
    effect: HeaderEffect,
) -> bool {
    match crate::design_targets::current_target(before, target) {
        None => after == before && effect == HeaderEffect::Rejected,
        Some(ids) => {
            let open = before.open->0;
            exists|header: Option<SelectionHeader>| #[trigger]
                header_outcome(open.doc, ids, page, open.editable, facts.actions, header) && (
                if !(header matches Some(header) && offers_command(header, command)) {
                    after == before && effect == HeaderEffect::Rejected
                } else {
                    command_effect(before, after, open, ids, command, page, facts, effect)
                })
        },
    }
}

/// Everything but the selection is as it was.
pub open spec fn only_selected(
    before: FantaDesignPanel,
    after: FantaDesignPanel,
    open: OpenDocument,
    selection: Seq<NodeId>,
) -> bool {
    &&& after.empty == before.empty
    &&& after.context_picker == before.context_picker
    &&& after.notices == before.notices
    &&& after.open matches Some(now) && {
        &&& now.editable == open.editable
        &&& now.history == open.history
        &&& now.doc.selection@ == selection
        &&& now.doc == (Doc { selection: now.doc.selection, ..open.doc })
    }
}

/// What a command that is offered does.
pub open spec fn command_effect(
    before: FantaDesignPanel,
    after: FantaDesignPanel,
    open: OpenDocument,
    ids: Seq<NodeId>,
    command: HeaderCommand,
    page: Option<NodeId>,
    facts: HeaderFacts,
    effect: HeaderEffect,
) -> bool {
    match command {
        HeaderCommand::SelectMatchingLayers => {
            let found = matching(open.doc, ids[0], page);
            if found.len() == 0 {
                after == before && effect == HeaderEffect::Selected(false)
            } else {
                only_selected(before, after, open, found) && effect == HeaderEffect::Selected(true)
            }
        },
        HeaderCommand::EditObject => after == before && effect == (
        if crate::design_paints::is_text(open.doc, ids[0]) {
            HeaderEffect::OpenText(ids[0])
        } else {
            HeaderEffect::EditOutline
        }),
        HeaderCommand::Boolean(_) => boolean_effect(before, after, open, ids, facts.made, effect),
        HeaderCommand::Unsupported => after == before && effect == HeaderEffect::Rejected,
        _ => exists|built: Result<LayerEdit, LayerError>, change: DocChange|
            effect == HeaderEffect::Edited(change) && #[trigger] edits_as_built(
                before,
                after,
                open,
                ids,
                command,
                facts,
                built,
                change,
            ),
    }
}

pub open spec fn edits_as_built(
    before: FantaDesignPanel,
    after: FantaDesignPanel,
    open: OpenDocument,
    ids: Seq<NodeId>,
    command: HeaderCommand,
    facts: HeaderFacts,
    built: Result<LayerEdit, LayerError>,
    change: DocChange,
) -> bool {
    &&& header_built(open, ids, command, facts, built)
    &&& crate::panel::command_outcome(
        before,
        after,
        crate::design_header::command_label(command, facts),
        built,
        change,
    )
}

/// The words for a command.
pub open spec fn command_label(command: HeaderCommand, facts: HeaderFacts) -> Seq<char> {
    match command {
        HeaderCommand::CreateComponent => "Create component"@,
        _ => facts.label@,
    }
}

/// Combining the layers: the layer that came of it is selected, or nothing
/// changes at all.
pub open spec fn boolean_effect(
    before: FantaDesignPanel,
    after: FantaDesignPanel,
    open: OpenDocument,
    ids: Seq<NodeId>,
    made: Option<MadeBoolean>,
    effect: HeaderEffect,
) -> bool {
    if combines(open.doc, ids, made) {
        &&& effect == HeaderEffect::Edited(DocChange::Content)
        &&& after.empty == before.empty
        &&& after.context_picker == before.context_picker
        &&& after.notices == before.notices
        &&& after.open matches Some(now) && {
            &&& now.editable == open.editable
            &&& crate::panel::recorded(
                open,
                now,
                Some("Boolean selection"@),
                made->0.operations@,
            )
            &&& now.doc.content() == crate::operations::all_applied(
                open.doc.content(),
                made->0.operations@,
            )
            &&& now.doc.selection@ == seq![made->0.created]
            &&& now.doc.id == open.doc.id
            &&& now.doc.pages@ == open.doc.pages@
            &&& now.doc.active_page == open.doc.active_page
        }
    } else {
        after == before && effect == HeaderEffect::BooleanUnavailable
    }
}

fn combine(doc: &Doc, ids: &Vec<NodeId>, made: &Option<MadeBoolean>) -> (r: Option<Doc>)
    requires
        doc.well_formed(),
    ensures
        match r {
            Some(now) => {
                &&& combines(*doc, ids@, *made)
                &&& now.well_formed()
                &&& now.content() == crate::operations::all_applied(
                    doc.content(),
                    (*made)->0.operations@,
                )
                &&& now.selection@ == seq![(*made)->0.created]
                &&& now.id == doc.id
                &&& now.pages@ == doc.pages@
                &&& now.active_page == doc.active_page
            },
            None => !combines(*doc, ids@, *made),
        },
{
    let made = match made {
        Some(made) => made,
        None => {
            return None;
        },
    };
    let mut scratch = doc.copy();
    proof {
        crate::layer_context_ops::lemma_same_content(scratch, *doc);
    }
    match scratch.apply_all(&made.operations) {
        Err(_) => None,
        Ok(_) => {
            let children = scratch.children_of(Some(made.created));
            proof {
                crate::content_walk::lemma_children_counted(scratch, made.created);
            }
            if children.len() != ids.len() {
                return None;
            }
            let ghost content = scratch.content();
            let mut selection: Vec<NodeId> = Vec::new();
            selection.push(made.created);
            assert(selection@ =~= seq![made.created]);
            scratch.selection = selection;
            assert(scratch.content() == content);
            Some(scratch)
        },
    }
}

/// The host has measured the children of the first selected layer.
pub open spec fn header_measured(panel: FantaDesignPanel, facts: HeaderFacts) -> bool {
    panel.open matches Some(open) && open.doc.selection@.len() > 0
        ==> crate::layer_simple::children_measured(
        panel.open->0.doc,
        panel.open->0.doc.selection@[0],
        facts.simple,
    )
}

impl FantaDesignPanel {
    /// Carries out a command of the header, where its target is still what is
    /// selected and the header offers it.
    pub fn run_header_command(
        &mut self,
        target: &DesignTarget,
        command: HeaderCommand,
        page: Option<NodeId>,
        facts: &HeaderFacts,
    ) -> (effect: HeaderEffect)
        requires
            old(self).valid(),
            header_measured(*old(self), *facts),
        ensures
            final(self).valid(),
            header_effect(*old(self), *final(self), *target, command, page, *facts, effect),
    {
        match self.offered_ids(target, command, page, facts) {
            Some(ids) => self.run_offered_command(&ids, command, page, facts),
            None => HeaderEffect::Rejected,
        }
    }

    /// The layers of a target that is still what is selected, where the header
    /// offers a command for them.
    pub(crate) fn offered_ids(
        &self,
        target: &DesignTarget,
        command: HeaderCommand,
        page: Option<NodeId>,
        facts: &HeaderFacts,
    ) -> (r: Option<Vec<NodeId>>)
        ensures
            match crate::design_targets::current_target(*self, *target) {
                None => r is None,
                Some(wanted) => exists|header: Option<SelectionHeader>| #[trigger]
                    header_outcome(
                        self.open->0.doc,
                        wanted,
                        page,
                        self.open->0.editable,
                        facts.actions,
                        header,
                    ) && (if header matches Some(header) && offers_command(header, command) {
                        r matches Some(ids) && ids@ == wanted && wanted.len() > 0
                    } else {
                        r is None
                    }),
            },
    {
        let ids = match self.target_ids(target) {
            Some(ids) => ids,
            None => {
                return None;
            },
        };
        let header = match &self.open {
            Some(open) => selection_header_for_doc(
                &open.doc,
                &ids,
                page,
                open.editable,
                &facts.actions,
            ),
            None => {
                return None;
            },
        };
        assert(header_outcome(
            self.open->0.doc,
            ids@,
            page,
            self.open->0.editable,
            facts.actions,
            header,
        ));
        let offered = match &header {
            Some(header) => header_supports(header, command),
            None => false,
        };
        if offered {
            Some(ids)
        } else {
            None
        }
    }

    pub(crate) fn run_offered_command(
        &mut self,
        ids: &Vec<NodeId>,
        command: HeaderCommand,
        page: Option<NodeId>,
        facts: &HeaderFacts,
    ) -> (effect: HeaderEffect)
        requires
            old(self).valid(),
            old(self).open is Some,
            ids@.len() > 0,
            crate::layer_simple::children_measured(
                old(self).open->0.doc,
                ids@[0],
                facts.simple,
            ),
        ensures
            final(self).valid(),
            command_effect(
                *old(self),
                *final(self),
                old(self).open->0,
                ids@,
                command,
                page,
                *facts,
                effect,
            ),
    {
        let ghost before = *self;
        match command {
            HeaderCommand::Unsupported => HeaderEffect::Rejected,
            HeaderCommand::SelectMatchingLayers => self.select_matching(ids[0], page),
            HeaderCommand::EditObject => match &self.open {
                Some(open) => if crate::design_paints::is_text_layer(&open.doc, ids[0]) {
                    HeaderEffect::OpenText(ids[0])
                } else {
                    HeaderEffect::EditOutline
                },
                None => HeaderEffect::Rejected,
            },
            HeaderCommand::Boolean(_) => {
                let combined = match &self.open {
                    Some(open) => combine(&open.doc, ids, &facts.made),
                    None => {
                        return HeaderEffect::Rejected;
                    },
                };
                match (combined, &facts.made, self.open.take()) {
                    (Some(doc), Some(made), Some(open)) => {
                        let mut history = open.history;
                        record(
                            &mut history,
                            Some("Boolean selection"),
                            copy_operations(&made.operations),
                        );
                        self.open = Some(OpenDocument { doc, editable: open.editable, history });
                        HeaderEffect::Edited(DocChange::Content)
                    },
                    (_, _, open) => {
                        self.open = open;
                        HeaderEffect::BooleanUnavailable
                    },
                }
            },
            _ => {
                let built: Result<LayerEdit, LayerError> = match &self.open {
                    Some(open) => if open.editable {
                        build_header_edit(&open.doc, ids, command, facts)
                    } else {
                        Err(LayerError::ReadOnly)
                    },
                    None => {
                        return HeaderEffect::Rejected;
                    },
                };
                let ghost edit = built;
                let change = match command {
                    HeaderCommand::CreateComponent => self.run_layer_edit(
                        "Create component",
                        built,
                    ),
                    _ => self.run_layer_edit(facts.label.as_str(), built),
                };
                assert(edits_as_built(
                    before,
                    *self,
                    before.open->0,
                    ids@,
                    command,
                    *facts,
                    edit,
                    change,
                ));
                HeaderEffect::Edited(change)
            },
        }
    }

    fn select_matching(&mut self, first: NodeId, page: Option<NodeId>) -> (effect: HeaderEffect)
        requires
            old(self).valid(),
            old(self).open is Some,
        ensures
            final(self).valid(),
            ({
                let open = old(self).open->0;
                let found = matching(open.doc, first, page);
                if found.len() == 0 {
                    *final(self) == *old(self) && effect == HeaderEffect::Selected(false)
                } else {
                    only_selected(*old(self), *final(self), open, found) && effect
                        == HeaderEffect::Selected(true)
                }
            }),
    {
        let found = match &self.open {
            Some(open) => matching_design_layers(&open.doc, first, page),
            None => {
                return HeaderEffect::Selected(false);
            },
        };
        if found.len() == 0 {
            return HeaderEffect::Selected(false);
        }
        match self.open.take() {
            Some(open) => {
                let mut open = open;
                open.doc.selection = found;
                self.open = Some(open);
                HeaderEffect::Selected(true)
            },
            None => HeaderEffect::Selected(false),
        }
    }
}

// ---------------------------------------------------------------------------
// Laws
// ---------------------------------------------------------------------------

/// Of a document that may not be edited, or with a locked layer selected, the
/// header offers nothing that would change it.
pub proof fn lemma_header_of_locked(
    doc: Doc,
    ids: Seq<NodeId>,
    page: Option<NodeId>,
    editable: bool,
    actions: OfferedActions,
    header: SelectionHeader,
    command: HeaderCommand,
)
    requires
        header_outcome(doc, ids, page, editable, actions, Some(header)),
        !editable || crate::layer_context_ops::any_locked(doc, ids),
        offers_command(header, command),
    ensures
        command == HeaderCommand::SelectMatchingLayers,
{
    match command {
        HeaderCommand::Title(item) => {
            assert(header.menu@.len() == 0);
        },
        _ => {
            let i = choose|i: int|
                0 <= i < header.controls@.len() && carries(#[trigger] header.controls@[i], command);
            assert(header.controls@[i] == HeaderControl::SelectMatchingLayers);
        },
    }
}

proof fn lemma_of_kind_members(doc: Doc, ids: Seq<NodeId>, kind: DesignKind)
    ensures
        forall|i: int|
            0 <= i < of_kind(doc, ids, kind).len() ==> is_of_kind(
                doc,
                #[trigger] of_kind(doc, ids, kind)[i],
                kind,
            ) && ids.contains(of_kind(doc, ids, kind)[i]),
    decreases ids.len(),
{
    if ids.len() > 0 {
        let front = ids.drop_last();
        lemma_of_kind_members(doc, front, kind);
        assert forall|i: int| 0 <= i < of_kind(doc, ids, kind).len() implies is_of_kind(
            doc,
            #[trigger] of_kind(doc, ids, kind)[i],
            kind,
        ) && ids.contains(of_kind(doc, ids, kind)[i]) by {
            let found = of_kind(doc, ids, kind)[i];
            if i < of_kind(doc, front, kind).len() {
                assert(of_kind(doc, front, kind)[i] == found);
                let k = choose|k: int| 0 <= k < front.len() && front[k] == found;
                assert(ids[k] == found);
            } else {
                assert(ids[ids.len() - 1] == found);
            }
        }
    }
}

/// All layers that match a layer are of its kind and lie on the page.
pub proof fn lemma_matching_kind(doc: Doc, id: NodeId, page: Option<NodeId>, kind: DesignKind)
    requires
        is_of_kind(doc, id, kind),
    ensures
        forall|i: int|
            0 <= i < matching(doc, id, page).len() ==> is_of_kind(
                doc,
                #[trigger] matching(doc, id, page)[i],
                kind,
            ) && page_layers(doc, page).contains(matching(doc, id, page)[i]),
{
    lemma_of_kind_members(doc, page_layers(doc, page), kind);
}

} // verus!
