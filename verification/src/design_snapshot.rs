//! Everything that the inspector shows, built at once from the document.

use vstd::prelude::*;

use crate::design_header::{selection_header_for_doc, OfferedActions, SelectionHeader};
use crate::design_node::{
    aggregate_selection, bound_states, design_node, member_node, parent_layout_for, AggregateNode,
    Capabilities, DesignNode, MemberNode, MultiSection, NodeSection, ParentLayout, PropertyState,
    VariableName,
};
use crate::design_targets::{copy_ids, current_page_id};
use crate::document::Doc;
use crate::ids::NodeId;
use crate::paint::Color;

verus! {

#[derive(Clone, Copy, Debug, PartialEq, Eq, Structural)]
pub enum PageBackground {
    Solid(Color),
    /// A picture or a gradient.
    Other,
    Missing,
}

/// A page as the inspector shows it.
#[derive(Debug, PartialEq)]
pub struct PageView {
    pub page_id: String,
    pub background: Color,
    /// The background is edited on the canvas only.
    pub read_only: bool,
}

impl PageView {
    pub fn copy(&self) -> (r: Self)
        ensures
            r == *self,
    {
        PageView {
            page_id: self.page_id.clone(),
            background: self.background,
            read_only: self.read_only,
        }
    }
}

/// What the host says of the selected layers and the page that is shown.
#[derive(Debug, PartialEq)]
pub struct SnapshotFacts {
    /// The id of the single selected layer, in words.
    pub node_text: String,
    /// The snapshot of the single selected layer.
    pub section: Option<NodeSection>,
    /// What the kind of the selected layer, or several layers, can do in general.
    pub preset: Capabilities,
    pub multi: MultiSection,
    pub variables: Vec<VariableName>,
    pub page_root: Option<String>,
    pub page_background: PageBackground,
    pub default_background: Color,
    pub actions: OfferedActions,
}

/// What is inspected.
#[derive(Debug, PartialEq)]
pub enum Inspection {
    Page,
    Single { node: DesignNode, parent: ParentLayout },
    Multiple {
        aggregate: AggregateNode,
        second: MemberNode,
        rest: Vec<MemberNode>,
        parent: ParentLayout,
    },
}

#[derive(Debug, PartialEq)]
pub struct TargetedHeader {
    pub nodes: Vec<NodeId>,
    pub header: SelectionHeader,
}

#[derive(Debug, PartialEq)]
pub struct DesignViewData {
    pub inspection: Inspection,
    pub editor: bool,
    pub states: Vec<PropertyState>,
    pub page: Option<PageView>,
    pub header: Option<TargetedHeader>,
}

#[verifier::allow_in_spec]
pub fn white() -> Color
    returns
        (Color { r: 255, g: 255, b: 255, a: 255 }),
{
    Color { r: 255, g: 255, b: 255, a: 255 }
}

/// What is shown of the page. Of a background that is no plain color the
/// inspector shows white, and does not edit it.
pub open spec fn page_shown(facts: SnapshotFacts, index: Option<usize>, page: PageView) -> bool {
    &&& page.page_id@ == crate::design_targets::page_name(facts.page_root, index)
    &&& page.background == (match facts.page_background {
        PageBackground::Solid(color) => color,
        PageBackground::Other => white(),
        PageBackground::Missing => facts.default_background,
    })
    &&& page.read_only == (facts.page_background == PageBackground::Other)
}

/// What all layers lie in, where they lie in the same.
pub open spec fn shared_parent(doc: Doc, ids: Seq<NodeId>) -> ParentLayout {
    if ids.len() == 0 {
        ParentLayout::Canvas
    } else {
        let first = crate::design_node::parent_layout_of(doc, ids[0]);
        if forall|i: int|
            0 <= i < ids.len() ==> crate::design_node::parent_layout_of(doc, #[trigger] ids[i])
                == first {
            first
        } else {
            ParentLayout::Mixed
        }
    }
}

fn common_parent(doc: &Doc, ids: &Vec<NodeId>) -> (layout: ParentLayout)
    ensures
        layout == shared_parent(*doc, ids@),
{
    if ids.len() == 0 {
        return ParentLayout::Canvas;
    }
    let first = parent_layout_for(doc, ids[0]);
    let mut i: usize = 0;
    while i < ids.len()
        invariant
            i <= ids@.len(),
            ids@.len() > 0,
            first == crate::design_node::parent_layout_of(*doc, ids@[0]),
            forall|k: int|
                0 <= k < i ==> crate::design_node::parent_layout_of(*doc, #[trigger] ids@[k])
                    == first,
        decreases ids@.len() - i,
    {
        if parent_layout_for(doc, ids[i]) != first {
            assert(crate::design_node::parent_layout_of(*doc, ids@[i as int]) != first);
            return ParentLayout::Mixed;
        }
        i = i + 1;
    }
    first
}

/// The members behind the second.
pub open spec fn rest_shown(doc: Doc, ids: Seq<NodeId>, rest: Seq<MemberNode>) -> bool {
    &&& rest.len() == ids.len() - 2
    &&& forall|i: int|
        0 <= i < rest.len() ==> crate::design_node::member_shown(
            doc,
            ids[i + 2],
            #[trigger] rest[i],
        )
}

/// What is inspected, and the states of its properties.
pub open spec fn inspected(
    doc: Doc,
    ids: Seq<NodeId>,
    facts: SnapshotFacts,
    inspection: Inspection,
    states: Seq<PropertyState>,
) -> bool {
    if ids.len() == 0 {
        inspection == Inspection::Page && states.len() == 0
    } else if ids.len() == 1 {
        match (crate::scene::find(doc.nodes@, ids[0]), facts.section) {
            (Some(node), Some(section)) => {
                &&& inspection matches Inspection::Single { node: shown, parent }
                &&& crate::design_node::node_shown(
                    doc,
                    node,
                    facts.node_text@,
                    section,
                    facts.preset,
                    shown,
                )
                &&& parent == crate::design_node::parent_layout_of(doc, ids[0])
                &&& states == crate::design_node::node_states(section)
                    + crate::design_node::bound_states_of(doc, ids[0], facts.variables@)
            },
            _ => inspection == Inspection::Page && states.len() == 0,
        }
    } else {
        &&& inspection matches Inspection::Multiple { aggregate, second, rest, parent }
        &&& crate::design_node::aggregate_shown(ids, facts.multi, facts.preset.flags, aggregate)
        &&& crate::design_node::member_shown(doc, ids[1], second)
        &&& rest_shown(doc, ids, rest@)
        &&& parent == shared_parent(doc, ids)
        &&& states == crate::design_node::multi_states(facts.multi)
    }
}

fn append_states(states: &mut Vec<PropertyState>, more: Vec<PropertyState>)
    ensures
        final(states)@ == old(states)@ + more@,
{
    let mut more = more;
    states.append(&mut more);
}

fn inspect(doc: &Doc, ids: &Vec<NodeId>, facts: &SnapshotFacts) -> (r: (
    Inspection,
    Vec<PropertyState>,
))
    ensures
        inspected(*doc, ids@, *facts, r.0, r.1@),
{
    if ids.len() == 0 {
        return (Inspection::Page, Vec::new());
    }
    if ids.len() == 1 {
        let section = match &facts.section {
            Some(section) => section,
            None => {
                return (Inspection::Page, Vec::new());
            },
        };
        return match design_node(
            doc,
            ids[0],
            facts.node_text.as_str(),
            section,
            &facts.preset,
        ) {
            Some((node, states)) => {
                let mut states = states;
                let bound = bound_states(doc, ids[0], &facts.variables);
                append_states(&mut states, bound);
                (Inspection::Single { node, parent: parent_layout_for(doc, ids[0]) }, states)
            },
            None => (Inspection::Page, Vec::new()),
        };
    }
    let (aggregate, states) = aggregate_selection(ids, &facts.multi, &facts.preset.flags);
    let second = member_node(doc, ids[1]);
    let mut rest: Vec<MemberNode> = Vec::new();
    let mut i: usize = 2;
    while i < ids.len()
        invariant
            2 <= i <= ids@.len(),
            rest@.len() == i - 2,
            forall|k: int|
                0 <= k < rest@.len() ==> crate::design_node::member_shown(
                    *doc,
                    ids@[k + 2],
                    #[trigger] rest@[k],
                ),
        decreases ids@.len() - i,
    {
        rest.push(member_node(doc, ids[i]));
        i = i + 1;
    }
    let parent = common_parent(doc, ids);
    (Inspection::Multiple { aggregate, second, rest, parent }, states)
}

/// The page whose layers a header matches against: the one at the place, or else
/// the active one.
pub open spec fn header_page(doc: Doc, index: Option<usize>) -> Option<NodeId> {
    match index {
        Some(index) => if index < doc.pages@.len() {
            Some(doc.pages@[index as int])
        } else {
            doc.active_page
        },
        None => doc.active_page,
    }
}

pub fn page_for_header(doc: &Doc, index: Option<usize>) -> (page: Option<NodeId>)
    ensures
        page == header_page(*doc, index),
{
    match index {
        Some(index) => if index < doc.pages.len() {
            Some(doc.pages[index])
        } else {
            doc.active_page
        },
        None => doc.active_page,
    }
}

/// The header is meant for exactly the selected layers.
pub open spec fn header_shown(
    doc: Doc,
    ids: Seq<NodeId>,
    index: Option<usize>,
    editable: bool,
    facts: SnapshotFacts,
    r: Option<TargetedHeader>,
) -> bool {
    exists|header: Option<SelectionHeader>| #[trigger]
        crate::design_header::header_outcome(
            doc,
            ids,
            header_page(doc, index),
            editable,
            facts.actions,
            header,
        ) && (match header {
            Some(header) => r matches Some(targeted) && targeted.header == header
                && targeted.nodes@ == ids,
            None => r is None,
        })
}

/// Everything that is shown. While a layer is selected the page stays as it was
/// shown before.
pub open spec fn view_shown(
    doc: Doc,
    ids: Seq<NodeId>,
    index: Option<usize>,
    editable: bool,
    previous: Option<PageView>,
    facts: SnapshotFacts,
    view: DesignViewData,
) -> bool {
    &&& view.editor == editable
    &&& inspected(doc, ids, facts, view.inspection, view.states@)
    &&& if ids.len() == 0 {
        view.page matches Some(page) && page_shown(facts, index, page)
    } else {
        view.page == previous
    }
    &&& header_shown(doc, ids, index, editable, facts, view.header)
}

pub fn build_design_view_data(
    doc: &Doc,
    ids: &Vec<NodeId>,
    page_index: Option<usize>,
    editable: bool,
    previous_page: Option<PageView>,
    facts: &SnapshotFacts,
) -> (view: DesignViewData)
    ensures
        view_shown(*doc, ids@, page_index, editable, previous_page, *facts, view),
{
    let (inspection, states) = inspect(doc, ids, facts);
    let page = if ids.len() == 0 {
        Some(
            PageView {
                page_id: current_page_id(&facts.page_root, page_index),
                background: match facts.page_background {
                    PageBackground::Solid(color) => color,
                    PageBackground::Other => white(),
                    PageBackground::Missing => facts.default_background,
                },
                read_only: match facts.page_background {
                    PageBackground::Other => true,
                    _ => false,
                },
            },
        )
    } else {
        previous_page
    };
    let shown = selection_header_for_doc(
        doc,
        ids,
        page_for_header(doc, page_index),
        editable,
        &facts.actions,
    );
    assert(crate::design_header::header_outcome(
        *doc,
        ids@,
        header_page(*doc, page_index),
        editable,
        facts.actions,
        shown,
    ));
    let header = match shown {
        Some(header) => Some(TargetedHeader { nodes: copy_ids(ids), header }),
        None => None,
    };
    DesignViewData { inspection, editor: editable, states, page, header }
}

/// A bound property keeps its binding's state: those come behind all others.
pub proof fn lemma_bindings_last(
    doc: Doc,
    ids: Seq<NodeId>,
    facts: SnapshotFacts,
    inspection: Inspection,
    states: Seq<PropertyState>,
)
    requires
        inspected(doc, ids, facts, inspection, states),
        inspection is Single,
    ensures
        crate::design_node::bound_states_of(doc, ids[0], facts.variables@).is_suffix_of(states),
{
    let bound = crate::design_node::bound_states_of(doc, ids[0], facts.variables@);
    assert(states.subrange(states.len() - bound.len(), states.len() as int) =~= bound);
}

/// Layers that lie in different layouts show a mixed one.
pub proof fn lemma_mixed_parents(doc: Doc, ids: Seq<NodeId>, i: int, j: int)
    requires
        0 <= i < ids.len(),
        0 <= j < ids.len(),
        crate::design_node::parent_layout_of(doc, ids[i])
            != crate::design_node::parent_layout_of(doc, ids[j]),
    ensures
        shared_parent(doc, ids) == ParentLayout::Mixed,
{
}

} // verus!
