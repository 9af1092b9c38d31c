//! Read models of the pages panel: its rows, and the search over all pages.

use vstd::prelude::*;
use vstd::string::*;

use crate::document::{CanvasNode, Doc, NodeData};
use crate::ids::NodeId;
use crate::layer_context_ops::is_component_root;
use crate::text::numbered;
use crate::text_search::matches_query;

verus! {

/// The top layer of a page, and how its id is written.
#[derive(Debug, PartialEq)]
pub struct PageRoot {
    pub id: NodeId,
    pub text: String,
}

#[derive(Debug, PartialEq)]
pub struct Page {
    pub root: Option<PageRoot>,
    pub name: String,
    pub hidden: bool,
}

/// Handle for one row of the panel: the place in the list of all pages.
#[derive(Clone, Copy, Debug, PartialEq, Eq, Structural)]
pub struct PageRef {
    pub index: usize,
    pub root: Option<NodeId>,
}

#[derive(Debug, PartialEq)]
pub struct PageItem {
    pub id: String,
    pub title: String,
    pub page: PageRef,
}

#[derive(Clone, Copy, Debug, PartialEq, Eq, Structural)]
pub enum HitField {
    Name,
    TextContent,
}

/// One search hit: where it lives and which field matched.
#[derive(Clone, Copy, Debug, PartialEq, Eq, Structural)]
pub struct SearchHit {
    pub node: NodeId,
    pub page_index: usize,
    pub field: HitField,
}

#[derive(Clone, Copy, Debug, PartialEq, Eq, Structural)]
pub enum ElementKind {
    All,
    Text,
    FrameGroup,
    Component,
    Instance,
    Image,
    Shape,
    Other,
}

#[derive(Clone, Copy, Debug, PartialEq, Eq, Structural)]
pub enum SearchScope {
    CurrentPage,
    AllPages,
}

#[derive(Debug, PartialEq)]
pub struct SearchRequest {
    pub query: String,
    pub match_case: bool,
    pub whole_words: bool,
    pub scope: SearchScope,
    pub element_kinds: Vec<ElementKind>,
}

#[derive(Debug, PartialEq)]
pub struct SearchResult {
    pub id: NodeId,
    pub title: String,
    pub parent: String,
    pub kind: ElementKind,
}

#[derive(Clone, Copy, Debug, PartialEq, Eq, Structural)]
pub struct ElementCount {
    pub kind: ElementKind,
    pub count: usize,
}

/// Results in display order; the hit at a place tells where the result at that
/// place lives.
#[derive(Debug, PartialEq)]
pub struct SearchResults {
    pub total: usize,
    pub items: Vec<SearchResult>,
    pub hits: Vec<SearchHit>,
    pub element_counts: Vec<ElementCount>,
}

// ---------------------------------------------------------------------------
// Rows
// ---------------------------------------------------------------------------

/// How a row is known to the panel: by its top layer, or by its place.
pub open spec fn row_id(root: Option<Seq<char>>, index: nat) -> Seq<char> {
    match root {
        Some(text) => text,
        None => "synthetic:"@ + crate::text::decimal(index),
    }
}

pub open spec fn root_text(root: Option<&str>) -> Option<Seq<char>> {
    match root {
        Some(text) => Some(text@),
        None => None,
    }
}

/// Stable, opaque id for a page row.
pub fn page_id(root: Option<&str>, index: usize) -> (id: String)
    ensures
        id@ == row_id(root_text(root), index as nat),
{
    match root {
        Some(text) => text.to_owned(),
        None => numbered("synthetic:", index),
    }
}

/// Rows that are known by their place are told apart.
pub proof fn lemma_synthetic_rows_differ(i: usize, j: usize)
    requires
        row_id(None, i as nat) == row_id(None, j as nat),
    ensures
        i == j,
{
    let head = "synthetic:"@;
    let a = crate::text::decimal(i as nat);
    let b = crate::text::decimal(j as nat);
    assert((head + a).skip(head.len() as int) =~= a);
    assert((head + b).skip(head.len() as int) =~= b);
    crate::text::lemma_decimal_parses(i);
    crate::text::lemma_decimal_parses(j);
}

/// The name that a page goes by: that of its top layer where it is there.
pub open spec fn page_title(doc: Doc, page: Page) -> Seq<char> {
    match page.root {
        Some(root) => match crate::scene::find(doc.nodes@, root.id) {
            Some(node) => node.name@,
            None => page.name@,
        },
        None => page.name@,
    }
}

pub open spec fn page_root_text(page: Page) -> Option<Seq<char>> {
    match page.root {
        Some(root) => Some(root.text@),
        None => None,
    }
}

pub open spec fn page_root_id(page: Page) -> Option<NodeId> {
    match page.root {
        Some(root) => Some(root.id),
        None => None,
    }
}

/// The places of the first `n` pages that are shown.
pub open spec fn shown_pages(pages: Seq<Page>, n: int) -> Seq<int>
    decreases n,
{
    if n <= 0 {
        Seq::empty()
    } else {
        let rest = shown_pages(pages, n - 1);
        if pages[n - 1].hidden {
            rest
        } else {
            rest.push(n - 1)
        }
    }
}

/// The row shows the page at a place.
pub open spec fn row_shows(item: PageItem, doc: Doc, pages: Seq<Page>, at: int) -> bool {
    &&& item.id@ == row_id(page_root_text(pages[at]), at as nat)
    &&& item.title@ == page_title(doc, pages[at])
    &&& item.page.index == at
    &&& item.page.root == page_root_id(pages[at])
}

/// The rows of the panel: one for every page that is not hidden.
pub fn pages_view_data(doc: &Doc, pages: &Vec<Page>) -> (items: Vec<PageItem>)
    ensures
        items@.len() == shown_pages(pages@, pages@.len() as int).len(),
        forall|k: int|
            0 <= k < items@.len() ==> row_shows(
                items@[k],
                *doc,
                pages@,
                #[trigger] shown_pages(pages@, pages@.len() as int)[k],
            ),
{
    let mut items: Vec<PageItem> = Vec::new();
    let mut i: usize = 0;
    while i < pages.len()
        invariant
            i <= pages@.len(),
            items@.len() == shown_pages(pages@, i as int).len(),
            forall|k: int|
                0 <= k < items@.len() ==> row_shows(
                    items@[k],
                    *doc,
                    pages@,
                    #[trigger] shown_pages(pages@, i as int)[k],
                ),
        decreases pages@.len() - i,
    {
        let page = &pages[i];
        let ghost head = shown_pages(pages@, i as int);
        let ghost before = items@;
        if !page.hidden {
            let (id, title, root) = match &page.root {
                Some(root) => {
                    let title = match doc.get(root.id) {
                        Some(node) => node.name.clone(),
                        None => page.name.clone(),
                    };
                    (page_id(Some(root.text.as_str()), i), title, Some(root.id))
                },
                None => (page_id(None, i), page.name.clone(), None),
            };
            items.push(PageItem { id, title, page: PageRef { index: i, root } });
            proof {
                let next = shown_pages(pages@, i + 1);
                assert(next == head.push(i as int));
                assert forall|k: int| 0 <= k < items@.len() implies row_shows(
                    items@[k],
                    *doc,
                    pages@,
                    #[trigger] next[k],
                ) by {
                    if k < head.len() {
                        assert(next[k] == head[k]);
                        assert(items@[k] == before[k]);
                    }
                }
            }
        }
        i = i + 1;
    }
    items
}

// ---------------------------------------------------------------------------
// Search
// ---------------------------------------------------------------------------

/// The searchable kind of a layer. A group that draws a component is one.
pub open spec fn kind_of(doc: Doc, id: NodeId, data: NodeData) -> ElementKind {
    match data {
        NodeData::Text(_) => ElementKind::Text,
        NodeData::TextPath { .. } => ElementKind::Text,
        NodeData::Instance(_) => ElementKind::Instance,
        NodeData::Group(_) => if crate::layer_context_ops::draws_component(doc, id) {
            ElementKind::Component
        } else {
            ElementKind::FrameGroup
        },
        NodeData::Bitmap(_) => ElementKind::Image,
        NodeData::Video(_) => ElementKind::Image,
        NodeData::Vector(_) => ElementKind::Shape,
        NodeData::Boolean(_) => ElementKind::Shape,
        _ => ElementKind::Other,
    }
}

pub fn element_kind(doc: &Doc, id: NodeId, data: &NodeData) -> (kind: ElementKind)
    ensures
        kind == kind_of(*doc, id, *data),
{
    match data {
        NodeData::Text(_) => ElementKind::Text,
        NodeData::TextPath { .. } => ElementKind::Text,
        NodeData::Instance(_) => ElementKind::Instance,
        NodeData::Group(_) => if is_component_root(doc, id) {
            ElementKind::Component
        } else {
            ElementKind::FrameGroup
        },
        NodeData::Bitmap(_) => ElementKind::Image,
        NodeData::Video(_) => ElementKind::Image,
        NodeData::Vector(_) => ElementKind::Shape,
        NodeData::Boolean(_) => ElementKind::Shape,
        _ => ElementKind::Other,
    }
}

/// The text that a layer shows.
pub open spec fn shown_text(data: NodeData) -> Option<Seq<char>> {
    match data {
        NodeData::Text(text) => Some(text.content@),
        NodeData::TextPath { content } => Some(content@),
        _ => None,
    }
}

/// The text matches the request.
pub open spec fn text_matches(text: Seq<char>, request: SearchRequest) -> bool {
    crate::text_search::matched_spans(
        text,
        request.query@,
        request.match_case,
        request.whole_words,
    ).len() > 0
}

/// The field of a layer that matches, its name before its text.
pub open spec fn matched_field(node: CanvasNode, request: SearchRequest) -> Option<HitField> {
    if text_matches(node.name@, request) {
        Some(HitField::Name)
    } else if shown_text(*node.data) matches Some(text) && text_matches(text, request) {
        Some(HitField::TextContent)
    } else {
        None
    }
}

/// A layer that matches.
#[derive(Clone, Copy, Debug, PartialEq, Eq, Structural)]
pub struct Found {
    pub node: NodeId,
    pub page_index: usize,
    pub field: HitField,
    pub kind: ElementKind,
}

/// The matching layers of a list.
pub open spec fn found_among(
    doc: Doc,
    page_index: usize,
    ids: Seq<NodeId>,
    request: SearchRequest,
) -> Seq<Found>
    decreases ids.len(),
{
    if ids.len() == 0 {
        Seq::empty()
    } else {
        let rest = found_among(doc, page_index, ids.drop_last(), request);
        match crate::scene::find(doc.nodes@, ids.last()) {
            Some(node) => match matched_field(node, request) {
                Some(field) => rest.push(
                    Found {
                        node: ids.last(),
                        page_index: page_index,
                        field: field,
                        kind: kind_of(doc, ids.last(), *node.data),
                    },
                ),
                None => rest,
            },
            None => rest,
        }
    }
}

/// A list without one id.
pub open spec fn without(ids: Seq<NodeId>, id: NodeId) -> Seq<NodeId>
    decreases ids.len(),
{
    if ids.len() == 0 {
        Seq::empty()
    } else if ids.last() == id {
        without(ids.drop_last(), id)
    } else {
        without(ids.drop_last(), id).push(ids.last())
    }
}

/// The layers of a page: what is below its top layer, or everything.
pub open spec fn page_layers(doc: Doc, page: Page) -> Seq<NodeId> {
    match page.root {
        Some(root) => without(crate::scene::descendants(doc.nodes@, root.id), root.id),
        None => crate::scene::all_layers(doc.nodes@),
    }
}

/// The page at a place is searched.
pub open spec fn searched(
    pages: Seq<Page>,
    at: int,
    current: Option<usize>,
    scope: SearchScope,
) -> bool {
    !pages[at].hidden && !(scope is CurrentPage && (current matches Some(page) && page != at))
}

/// The matching layers of the first `n` pages, page by page.
pub open spec fn found_on(
    doc: Doc,
    pages: Seq<Page>,
    n: int,
    current: Option<usize>,
    request: SearchRequest,
) -> Seq<Found>
    decreases n,
{
    if n <= 0 {
        Seq::empty()
    } else {
        let rest = found_on(doc, pages, n - 1, current, request);
        if searched(pages, n - 1, current, request.scope) {
            rest + found_among(
                doc,
                (n - 1) as usize,
                page_layers(doc, pages[n - 1]),
                request,
            )
        } else {
            rest
        }
    }
}

/// The kind passes the filter: any kind where no single one is asked for.
pub open spec fn passes(kinds: Seq<ElementKind>, kind: ElementKind) -> bool {
    let asked = only_single(kinds);
    asked.len() == 0 || asked.contains(kind)
}

pub open spec fn only_single(kinds: Seq<ElementKind>) -> Seq<ElementKind>
    decreases kinds.len(),
{
    if kinds.len() == 0 {
        Seq::empty()
    } else if kinds.last() is All {
        only_single(kinds.drop_last())
    } else {
        only_single(kinds.drop_last()).push(kinds.last())
    }
}

/// What is shown of the matching layers.
pub open spec fn filtered(found: Seq<Found>, kinds: Seq<ElementKind>) -> Seq<Found>
    decreases found.len(),
{
    if found.len() == 0 {
        Seq::empty()
    } else {
        let rest = filtered(found.drop_last(), kinds);
        if passes(kinds, found.last().kind) {
            rest.push(found.last())
        } else {
            rest
        }
    }
}

/// How many matching layers are of a kind.
pub open spec fn count_of(found: Seq<Found>, kind: ElementKind) -> nat
    decreases found.len(),
{
    if found.len() == 0 {
        0
    } else {
        count_of(found.drop_last(), kind) + (if found.last().kind == kind {
            1nat
        } else {
            0nat
        })
    }
}

/// The title of a result: the name, or the text where only that matches and
/// there is a name.
pub open spec fn result_title(node: CanvasNode, field: HitField) -> Seq<char> {
    if field is Name || node.name@.len() == 0 {
        node.name@
    } else {
        match shown_text(*node.data) {
            Some(text) => text,
            None => node.name@,
        }
    }
}

/// The result shows a matching layer.
pub open spec fn result_shows(
    item: SearchResult,
    hit: SearchHit,
    found: Found,
    doc: Doc,
    pages: Seq<Page>,
) -> bool {
    &&& item.id == found.node
    &&& crate::scene::find(doc.nodes@, found.node) matches Some(node) && item.title@
        == result_title(node, found.field)
    &&& item.parent == pages[found.page_index as int].name
    &&& item.kind == found.kind
    &&& hit == (SearchHit {
        node: found.node,
        page_index: found.page_index,
        field: found.field,
    })
}

/// The counts: all matching layers first, then kind by kind in the order of the
/// filter.
pub open spec fn counts_shown(
    counts: Seq<ElementCount>,
    found: Seq<Found>,
    order: Seq<ElementKind>,
) -> bool {
    let kinds = only_single(order);
    &&& counts.len() == kinds.len() + 1
    &&& counts[0].kind is All
    &&& counts[0].count == found.len()
    &&& forall|k: int|
        0 <= k < kinds.len() ==> counts[k + 1].kind == #[trigger] kinds[k] && counts[k + 1].count
            == count_of(found, kinds[k])
}

fn node_text(data: &NodeData) -> (text: Option<&str>)
    ensures
        match shown_text(*data) {
            Some(shown) => text matches Some(text) && text@ == shown,
            None => text is None,
        },
{
    match data {
        NodeData::Text(text) => Some(text.content.as_str()),
        NodeData::TextPath { content } => Some(content.as_str()),
        _ => None,
    }
}

fn field_of(node: &CanvasNode, request: &SearchRequest) -> (field: Option<HitField>)
    ensures
        field == matched_field(*node, *request),
{
    if matches_query(
        node.name.as_str(),
        request.query.as_str(),
        request.match_case,
        request.whole_words,
    ) {
        return Some(HitField::Name);
    }
    match node_text(&node.data) {
        Some(text) => if matches_query(
            text,
            request.query.as_str(),
            request.match_case,
            request.whole_words,
        ) {
            Some(HitField::TextContent)
        } else {
            None
        },
        None => None,
    }
}

fn layers_of_page(doc: &Doc, page: &Page) -> (ids: Vec<NodeId>)
    ensures
        ids@ == page_layers(*doc, *page),
{
    match &page.root {
        None => doc.all_layers(),
        Some(root) => {
            let all = doc.descendants_of(root.id);
            let mut ids: Vec<NodeId> = Vec::new();
            let mut i: usize = 0;
            assert(all@.take(0) =~= Seq::<NodeId>::empty());
            while i < all.len()
                invariant
                    i <= all@.len(),
                    ids@ == without(all@.take(i as int), root.id),
                decreases all@.len() - i,
            {
                proof {
                    assert(all@.take(i + 1).drop_last() =~= all@.take(i as int));
                    assert(all@.take(i + 1).last() == all@[i as int]);
                }
                if all[i] != root.id {
                    ids.push(all[i]);
                }
                i = i + 1;
            }
            assert(all@.take(all@.len() as int) =~= all@);
            ids
        },
    }
}

fn find_among(
    doc: &Doc,
    page_index: usize,
    ids: &Vec<NodeId>,
    request: &SearchRequest,
    found: &mut Vec<Found>,
)
    ensures
        final(found)@ == old(found)@ + found_among(*doc, page_index, ids@, *request),
{
    let ghost start = found@;
    let mut i: usize = 0;
    assert(ids@.take(0) =~= Seq::<NodeId>::empty());
    assert(start + Seq::<Found>::empty() =~= start);
    while i < ids.len()
        invariant
            i <= ids@.len(),
            found@ == start + found_among(*doc, page_index, ids@.take(i as int), *request),
        decreases ids@.len() - i,
    {
        let id = ids[i];
        let ghost head = found_among(*doc, page_index, ids@.take(i as int), *request);
        proof {
            assert(ids@.take(i + 1).drop_last() =~= ids@.take(i as int));
            assert(ids@.take(i + 1).last() == id);
        }
        if let Some(node) = doc.get(id) {
            if let Some(field) = field_of(node, request) {
                let kind = element_kind(doc, id, &node.data);
                let entry = Found { node: id, page_index, field, kind };
                found.push(entry);
                assert((start + head).push(entry) =~= start + head.push(entry));
            }
        }
        i = i + 1;
    }
    assert(ids@.take(ids@.len() as int) =~= ids@);
}

fn single_kinds(kinds: &Vec<ElementKind>) -> (asked: Vec<ElementKind>)
    ensures
        asked@ == only_single(kinds@),
{
    let mut asked: Vec<ElementKind> = Vec::new();
    let mut i: usize = 0;
    assert(kinds@.take(0) =~= Seq::<ElementKind>::empty());
    while i < kinds.len()
        invariant
            i <= kinds@.len(),
            asked@ == only_single(kinds@.take(i as int)),
        decreases kinds@.len() - i,
    {
        proof {
            assert(kinds@.take(i + 1).drop_last() =~= kinds@.take(i as int));
            assert(kinds@.take(i + 1).last() == kinds@[i as int]);
        }
        if kinds[i] != ElementKind::All {
            asked.push(kinds[i]);
        }
        i = i + 1;
    }
    assert(kinds@.take(kinds@.len() as int) =~= kinds@);
    asked
}

fn holds_kind(kinds: &Vec<ElementKind>, kind: ElementKind) -> (r: bool)
    ensures
        r == kinds@.contains(kind),
{
    let mut i: usize = 0;
    while i < kinds.len()
        invariant
            i <= kinds@.len(),
            forall|k: int| 0 <= k < i ==> kinds@[k] != kind,
        decreases kinds@.len() - i,
    {
        if kinds[i] == kind {
            return true;
        }
        i = i + 1;
    }
    false
}

fn count_kind(found: &Vec<Found>, kind: ElementKind) -> (count: usize)
    ensures
        count == count_of(found@, kind),
{
    let mut count: usize = 0;
    let mut i: usize = 0;
    assert(found@.take(0) =~= Seq::<Found>::empty());
    while i < found.len()
        invariant
            i <= found@.len(),
            count <= i,
            count == count_of(found@.take(i as int), kind),
        decreases found@.len() - i,
    {
        proof {
            assert(found@.take(i + 1).drop_last() =~= found@.take(i as int));
            assert(found@.take(i + 1).last() == found@[i as int]);
        }
        if found[i].kind == kind {
            count = count + 1;
        }
        i = i + 1;
    }
    assert(found@.take(found@.len() as int) =~= found@);
    count
}

fn count_kinds(found: &Vec<Found>, order: &Vec<ElementKind>) -> (counts: Vec<ElementCount>)
    ensures
        counts_shown(counts@, found@, order@),
{
    let kinds = single_kinds(order);
    let mut counts: Vec<ElementCount> = Vec::new();
    counts.push(ElementCount { kind: ElementKind::All, count: found.len() });
    let mut i: usize = 0;
    while i < kinds.len()
        invariant
            i <= kinds@.len(),
            counts@.len() == i + 1,
            counts@[0].kind is All,
            counts@[0].count == found@.len(),
            forall|k: int|
                0 <= k < i ==> counts@[k + 1].kind == #[trigger] kinds@[k] && counts@[k + 1].count
                    == count_of(found@, kinds@[k]),
        decreases kinds@.len() - i,
    {
        let ghost before = counts@;
        counts.push(ElementCount { kind: kinds[i], count: count_kind(found, kinds[i]) });
        proof {
            assert forall|k: int| 0 <= k < i + 1 implies counts@[k + 1].kind == #[trigger] kinds@[k]
                && counts@[k + 1].count == count_of(found@, kinds@[k]) by {
                if k < i {
                    assert(counts@[k + 1] == before[k + 1]);
                }
            }
        }
        i = i + 1;
    }
    counts
}

/// Everything that a search gives back.
pub open spec fn search_outcome(
    results: SearchResults,
    doc: Doc,
    pages: Seq<Page>,
    current: Option<usize>,
    request: SearchRequest,
    order: Seq<ElementKind>,
) -> bool {
    let found = found_on(doc, pages, pages.len() as int, current, request);
    let shown = filtered(found, request.element_kinds@);
    &&& results.total == shown.len()
    &&& results.items@.len() == shown.len()
    &&& results.hits@.len() == shown.len()
    &&& forall|k: int|
        0 <= k < shown.len() ==> result_shows(
            results.items@[k],
            results.hits@[k],
            #[trigger] shown[k],
            doc,
            pages,
        )
    &&& counts_shown(results.element_counts@, found, order)
}

/// Searches the names and texts of all layers. Counts cover every kind; the
/// results only the kinds asked for. `order` is the order of the panel's filter.
pub fn search_pages(
    doc: &Doc,
    pages: &Vec<Page>,
    current_page_index: Option<usize>,
    request: &SearchRequest,
    order: &Vec<ElementKind>,
) -> (results: SearchResults)
    ensures
        search_outcome(results, *doc, pages@, current_page_index, *request, order@),
{
    let mut found: Vec<Found> = Vec::new();
    let mut p: usize = 0;
    while p < pages.len()
        invariant
            p <= pages@.len(),
            found@ == found_on(*doc, pages@, p as int, current_page_index, *request),
        decreases pages@.len() - p,
    {
        let elsewhere = match (request.scope, current_page_index) {
            (SearchScope::CurrentPage, Some(current)) => current != p,
            _ => false,
        };
        if !pages[p].hidden && !elsewhere {
            let ids = layers_of_page(doc, &pages[p]);
            find_among(doc, p, &ids, request, &mut found);
        }
        p = p + 1;
    }
    proof {
        lemma_found_known(*doc, pages@, pages@.len() as int, current_page_index, *request);
    }
    let asked = single_kinds(&request.element_kinds);
    let mut items: Vec<SearchResult> = Vec::new();
    let mut hits: Vec<SearchHit> = Vec::new();
    let mut i: usize = 0;
    assert(found@.take(0) =~= Seq::<Found>::empty());
    while i < found.len()
        invariant
            i <= found@.len(),
            asked@ == only_single(request.element_kinds@),
            forall|k: int|
                0 <= k < found@.len() ==> (#[trigger] found@[k]).page_index < pages@.len()
                    && crate::scene::find(doc.nodes@, found@[k].node) is Some,
            items@.len() == filtered(found@.take(i as int), request.element_kinds@).len(),
            hits@.len() == items@.len(),
            forall|k: int|
                0 <= k < items@.len() ==> result_shows(
                    items@[k],
                    hits@[k],
                    #[trigger] filtered(found@.take(i as int), request.element_kinds@)[k],
                    *doc,
                    pages@,
                ),
        decreases found@.len() - i,
    {
        let entry = found[i];
        let ghost head = filtered(found@.take(i as int), request.element_kinds@);
        let ghost old_items = items@;
        let ghost old_hits = hits@;
        proof {
            assert(found@.take(i + 1).drop_last() =~= found@.take(i as int));
            assert(found@.take(i + 1).last() == entry);
        }
        if asked.len() == 0 || holds_kind(&asked, entry.kind) {
            if let Some(node) = doc.get(entry.node) {
                let by_name = match entry.field {
                    HitField::Name => true,
                    HitField::TextContent => node.name.as_str().unicode_len() == 0,
                };
                let title = if by_name {
                    node.name.clone()
                } else {
                    match node_text(&node.data) {
                        Some(text) => text.to_owned(),
                        None => node.name.clone(),
                    }
                };
                items.push(
                    SearchResult {
                        id: entry.node,
                        title,
                        parent: pages[entry.page_index].name.clone(),
                        kind: entry.kind,
                    },
                );
                hits.push(
                    SearchHit {
                        node: entry.node,
                        page_index: entry.page_index,
                        field: entry.field,
                    },
                );
                proof {
                    let next = filtered(found@.take(i + 1), request.element_kinds@);
                    assert(next == head.push(entry));
                    assert forall|k: int| 0 <= k < items@.len() implies result_shows(
                        items@[k],
                        hits@[k],
                        #[trigger] next[k],
                        *doc,
                        pages@,
                    ) by {
                        if k < head.len() {
                            assert(next[k] == head[k]);
                            assert(items@[k] == old_items[k]);
                            assert(hits@[k] == old_hits[k]);
                        }
                    }
                }
            }
        }
        i = i + 1;
    }
    assert(found@.take(found@.len() as int) =~= found@);
    let element_counts = count_kinds(&found, order);
    SearchResults { total: items.len(), items, hits, element_counts }
}

proof fn lemma_found_among_known(
    doc: Doc,
    page_index: usize,
    ids: Seq<NodeId>,
    request: SearchRequest,
)
    ensures
        forall|k: int|
            0 <= k < found_among(doc, page_index, ids, request).len() ==> (
            #[trigger] found_among(doc, page_index, ids, request)[k]).page_index == page_index
                && crate::scene::find(
                doc.nodes@,
                found_among(doc, page_index, ids, request)[k].node,
            ) is Some,
    decreases ids.len(),
{
    if ids.len() > 0 {
        let rest = found_among(doc, page_index, ids.drop_last(), request);
        let all = found_among(doc, page_index, ids, request);
        lemma_found_among_known(doc, page_index, ids.drop_last(), request);
        assert forall|k: int| 0 <= k < all.len() implies (#[trigger] all[k]).page_index
            == page_index && crate::scene::find(doc.nodes@, all[k].node) is Some by {
            if k < rest.len() {
                assert(all[k] == rest[k]);
            }
        }
    }
}

proof fn lemma_found_known(
    doc: Doc,
    pages: Seq<Page>,
    n: int,
    current: Option<usize>,
    request: SearchRequest,
)
    requires
        0 <= n <= pages.len() <= usize::MAX,
    ensures
        forall|k: int|
            0 <= k < found_on(doc, pages, n, current, request).len() ==> (
            #[trigger] found_on(doc, pages, n, current, request)[k]).page_index < pages.len()
                && crate::scene::find(
                doc.nodes@,
                found_on(doc, pages, n, current, request)[k].node,
            ) is Some,
    decreases n,
{
    if n > 0 {
        lemma_found_known(doc, pages, n - 1, current, request);
        let rest = found_on(doc, pages, n - 1, current, request);
        let more = found_among(doc, (n - 1) as usize, page_layers(doc, pages[n - 1]), request);
        let all = found_on(doc, pages, n, current, request);
        lemma_found_among_known(
            doc,
            (n - 1) as usize,
            page_layers(doc, pages[n - 1]),
            request,
        );
        assert forall|k: int| 0 <= k < all.len() implies (#[trigger] all[k]).page_index
            < pages.len() && crate::scene::find(doc.nodes@, all[k].node) is Some by {
            if k < rest.len() {
                assert(all[k] == rest[k]);
            } else {
                assert(all[k] == more[k - rest.len()]);
            }
        }
    }
}

/// Where the result with an id lives: the last hit of that id.
pub fn find_hit(hits: &Vec<SearchHit>, id: NodeId) -> (hit: Option<SearchHit>)
    ensures
        match hit {
            Some(hit) => hit.node == id && exists|k: int|
                0 <= k < hits@.len() && hits@[k] == hit && forall|j: int|
                    k < j < hits@.len() ==> (#[trigger] hits@[j]).node != id,
            None => forall|j: int| 0 <= j < hits@.len() ==> (#[trigger] hits@[j]).node != id,
        },
{
    let mut n: usize = hits.len();
    while n > 0
        invariant
            n <= hits@.len(),
            forall|j: int| n <= j < hits@.len() ==> (#[trigger] hits@[j]).node != id,
        decreases n,
    {
        if hits[n - 1].node == id {
            assert(hits@[n - 1] == hits@[n - 1]);
            return Some(hits[n - 1]);
        }
        n = n - 1;
    }
    None
}

// ---------------------------------------------------------------------------
// Laws
// ---------------------------------------------------------------------------

/// Every matching layer counts for exactly one kind: the counts of the kinds
/// add up to the count of all.
pub proof fn lemma_counts_add_up(found: Seq<Found>)
    requires
        forall|k: int| 0 <= k < found.len() ==> !((#[trigger] found[k]).kind is All),
    ensures
        found.len() == count_of(found, ElementKind::Text) + count_of(found, ElementKind::FrameGroup)
            + count_of(found, ElementKind::Component) + count_of(found, ElementKind::Instance)
            + count_of(found, ElementKind::Image) + count_of(found, ElementKind::Shape) + count_of(
            found,
            ElementKind::Other,
        ),
    decreases found.len(),
{
    if found.len() > 0 {
        let front = found.drop_last();
        assert forall|k: int| 0 <= k < front.len() implies !((#[trigger] front[k]).kind is All) by {
            assert(front[k] == found[k]);
        }
        assert(!(found[found.len() - 1].kind is All));
        lemma_counts_add_up(front);
    }
}

/// No layer is of the kind that stands for all.
pub proof fn lemma_kind_is_single(doc: Doc, id: NodeId, data: NodeData)
    ensures
        !(kind_of(doc, id, data) is All),
{
}

/// Without a filter everything that matches is shown.
pub proof fn lemma_no_filter_shows_all(found: Seq<Found>, kinds: Seq<ElementKind>)
    requires
        only_single(kinds).len() == 0,
    ensures
        filtered(found, kinds) == found,
    decreases found.len(),
{
    if found.len() > 0 {
        lemma_no_filter_shows_all(found.drop_last(), kinds);
        assert(found.drop_last().push(found.last()) =~= found);
    }
}

/// A filter shows as many results as the counts of its kind say, where it asks
/// for one kind.
pub proof fn lemma_filter_matches_count(found: Seq<Found>, kinds: Seq<ElementKind>, kind: ElementKind)
    requires
        only_single(kinds) == seq![kind],
    ensures
        filtered(found, kinds).len() == count_of(found, kind),
    decreases found.len(),
{
    if found.len() > 0 {
        lemma_filter_matches_count(found.drop_last(), kinds, kind);
        let asked = only_single(kinds);
        assert(asked[0] == kind);
        assert(asked.contains(found.last().kind) <==> found.last().kind == kind);
    }
}

/// An empty query finds nothing.
pub proof fn lemma_empty_query_finds_nothing(
    doc: Doc,
    page_index: usize,
    ids: Seq<NodeId>,
    request: SearchRequest,
)
    requires
        request.query@.len() == 0,
    ensures
        found_among(doc, page_index, ids, request).len() == 0,
    decreases ids.len(),
{
    if ids.len() > 0 {
        lemma_empty_query_finds_nothing(doc, page_index, ids.drop_last(), request);
    }
}

} // verus!
