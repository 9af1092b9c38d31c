//! Laws: what the panels show and offer, said of the layers themselves.

use vstd::prelude::*;

use crate::design_header::{
    HeaderCommand, HeaderControl, HeaderTitle, OfferedActions, SelectionHeader, TitleItem,
};
use crate::design_targets::{
    ArrangeOperation, ArrangePlan, ArrangeStep, CenterSpans, SelectionBox, TargetFacts,
    TargetedEdit,
};
use crate::design_values::{DesignKind, DesignProperty, DesignValue};
use crate::document::{CanvasNode, Doc, NodeData, ParametricShape, Transform};
use crate::ids::NodeId;
use crate::inspector_widgets::{scrub_step, ScrubStep};
use crate::live_mcp::LiveTool;
use crate::operations::{Content, Operation};
use crate::pages::{ElementKind, Found, Page, SearchRequest, SearchResults, SearchScope};
use crate::scalar::Scalar;
use crate::switches::PaintType;
use crate::toolbar::{
    ChromeControl, EditorMode, OptionInputs, ToolKind, ToolbarAdapter, ToolbarPushes,
};

verus! {

proof fn lemma_longer<T>(list: Seq<T>, x: T)
    ensures
        list.push(x).contains(x),
        forall|y: T| #[trigger] list.push(x).contains(y) <==> y == x || list.contains(y),
{
    assert(list.push(x)[list.len() as int] == x);
    assert forall|y: T| #[trigger] list.push(x).contains(y) <==> y == x || list.contains(y) by {
        if list.contains(y) {
            let i = choose|i: int| 0 <= i < list.len() && list[i] == y;
            assert(list.push(x)[i] == y);
        }
    }
}

proof fn lemma_last_apart<T>(list: Seq<T>)
    requires
        list.len() > 0,
    ensures
        forall|y: T| #[trigger] list.contains(y) <==> y == list.last() || list.drop_last().contains(y),
{
    lemma_longer(list.drop_last(), list.last());
    assert(list.drop_last().push(list.last()) =~= list);
}

// ---------------------------------------------------------------------------
// Kinds
// ---------------------------------------------------------------------------

/// A component is drawn by this layer.
pub open spec fn has_component(doc: Doc, id: NodeId) -> bool {
    exists|i: int| 0 <= i < doc.components@.len() && (#[trigger] doc.components@[i]).root == id
}

/// The kind by which a layer is searched: texts of both sorts are texts, pictures and
/// films are images, outlines and combinations are shapes, and a group is a component
/// exactly where it draws one.
pub proof fn lemma_search_kind_tells(doc: Doc, id: NodeId, data: NodeData)
    ensures
        ({
            let kind = crate::pages::kind_of(doc, id, data);
            &&& kind is Text <==> data is Text || data is TextPath
            &&& kind is Instance <==> data is Instance
            &&& kind is Component <==> data is Group && has_component(doc, id)
            &&& kind is FrameGroup <==> data is Group && !has_component(doc, id)
            &&& kind is Image <==> data is Bitmap || data is Video
            &&& kind is Shape <==> data is Vector || data is Boolean
            &&& !(kind is All)
        }),
{
}

/// The kind that the inspector shows: a group is a component, a frame or a group by
/// what it draws and whether it is a frame surface; an outline is the shape it was
/// drawn as, else a rectangle, else an outline.
pub proof fn lemma_design_kind_tells(doc: Doc, id: NodeId, data: NodeData)
    ensures
        ({
            let kind = crate::design_values::design_kind_of(doc, id, data);
            &&& kind is Component <==> data is Group && has_component(doc, id)
            &&& kind is Frame <==> data is Group && !has_component(doc, id)
                && data->Group_0.frame_surface
            &&& kind is Group <==> data is Group && !has_component(doc, id)
                && !data->Group_0.frame_surface
            &&& kind is Ellipse <==> data is Vector && (data->Vector_0.parametric matches Some(
                ParametricShape::Arc { .. },
            ))
            &&& kind is Star <==> data is Vector && (data->Vector_0.parametric matches Some(
                ParametricShape::Star { .. },
            ))
            &&& kind is Polygon <==> data is Vector && (data->Vector_0.parametric matches Some(
                ParametricShape::Polygon { .. },
            ))
            &&& kind is Rectangle <==> data is Vector && data->Vector_0.parametric is None
                && data->Vector_0.path.rectangle
            &&& kind is Vector <==> data is Vector && data->Vector_0.parametric is None
                && !data->Vector_0.path.rectangle
            &&& kind is Text <==> data is Text || data is TextPath
            &&& kind is Instance <==> data is Instance
            &&& kind is BooleanOperation <==> data is Boolean
            &&& kind is Image <==> data is Bitmap
            &&& kind is Video <==> data is Video
            &&& crate::design_values::gathers(kind) <==> data is Group
        }),
{
}

// ---------------------------------------------------------------------------
// Pages
// ---------------------------------------------------------------------------

proof fn lemma_shown_pages(pages: Seq<Page>, n: int)
    requires
        0 <= n <= pages.len(),
    ensures
        forall|at: int| #[trigger]
            crate::pages::shown_pages(pages, n).contains(at) <==> 0 <= at < n && !pages[at].hidden,
        forall|j: int, k: int|
            0 <= j < k < crate::pages::shown_pages(pages, n).len()
                ==> #[trigger] crate::pages::shown_pages(pages, n)[j]
                < #[trigger] crate::pages::shown_pages(pages, n)[k],
    decreases n,
{
    if n > 0 {
        lemma_shown_pages(pages, n - 1);
        let rest = crate::pages::shown_pages(pages, n - 1);
        lemma_longer(rest, n - 1);
        assert forall|j: int| 0 <= j < rest.len() implies #[trigger] rest[j] < n - 1 by {
            assert(rest.contains(rest[j]));
        }
    }
}

/// The rows of the pages panel: every page that is not hidden has one, no hidden page
/// has, and they stand in the order of the pages.
pub proof fn lemma_page_rows(doc: Doc, pages: Seq<Page>, items: Seq<crate::pages::PageItem>)
    requires
        items.len() == crate::pages::shown_pages(pages, pages.len() as int).len(),
        forall|k: int|
            0 <= k < items.len() ==> crate::pages::row_shows(
                items[k],
                doc,
                pages,
                #[trigger] crate::pages::shown_pages(pages, pages.len() as int)[k],
            ),
    ensures
        forall|k: int|
            0 <= k < items.len() ==> (#[trigger] items[k]).page.index < pages.len()
                && !pages[items[k].page.index as int].hidden,
        forall|j: int, k: int|
            0 <= j < k < items.len() ==> (#[trigger] items[j]).page.index < (
            #[trigger] items[k]).page.index,
        forall|at: int|
            0 <= at < pages.len() && !(#[trigger] pages[at]).hidden ==> exists|k: int|
                0 <= k < items.len() && (#[trigger] items[k]).page.index == at,
        forall|k: int|
            0 <= k < items.len() ==> ({
                let page = pages[(#[trigger] items[k]).page.index as int];
                &&& page.root is Some <==> items[k].page.root is Some
                &&& page.root is Some ==> items[k].page.root == Some(page.root->0.id)
                    && items[k].id@ == page.root->0.text@
                &&& page.root is None ==> items[k].title@ == page.name@
                &&& page.root is Some && (crate::scene::find(
                    doc.nodes@,
                    page.root->0.id,
                ) matches Some(node)) ==> items[k].title@ == crate::scene::find(
                    doc.nodes@,
                    page.root->0.id,
                )->0.name@
            }),
{
    let shown = crate::pages::shown_pages(pages, pages.len() as int);
    lemma_shown_pages(pages, pages.len() as int);
    assert forall|k: int| 0 <= k < items.len() implies (#[trigger] items[k]).page.index == shown[k]
        && 0 <= shown[k] < pages.len() && !pages[shown[k]].hidden && crate::pages::row_shows(
        items[k],
        doc,
        pages,
        shown[k],
    ) by {
        assert(crate::pages::row_shows(items[k], doc, pages, shown[k]));
        assert(shown.contains(shown[k]));
    }
    assert forall|j: int, k: int| 0 <= j < k < items.len() implies (#[trigger] items[j]).page.index
        < (#[trigger] items[k]).page.index by {
        assert(shown[j] < shown[k]);
    }
    assert forall|at: int| 0 <= at < pages.len() && !(#[trigger] pages[at]).hidden implies exists|
        k: int,
    |
        0 <= k < items.len() && (#[trigger] items[k]).page.index == at by {
        assert(shown.contains(at));
        let k = choose|k: int| 0 <= k < shown.len() && shown[k] == at;
        assert(items[k].page.index == at);
    }
}

// ---------------------------------------------------------------------------
// Search
// ---------------------------------------------------------------------------

/// The text of a layer that shows one.
pub open spec fn text_in(data: NodeData) -> Option<Seq<char>> {
    match data {
        NodeData::Text(text) => Some(text.content@),
        NodeData::TextPath { content } => Some(content@),
        _ => None,
    }
}

/// The query occurs in the text.
pub open spec fn occurs(text: Seq<char>, request: SearchRequest) -> bool {
    crate::text_search::matched_spans(
        text,
        request.query@,
        request.match_case,
        request.whole_words,
    ).len() > 0
}

/// The page is one that is searched: it is not hidden, and all pages are asked for, or
/// it is the one in view.
pub open spec fn in_scope(
    pages: Seq<Page>,
    at: int,
    current: Option<usize>,
    scope: SearchScope,
) -> bool {
    &&& 0 <= at < pages.len()
    &&& !pages[at].hidden
    &&& scope is AllPages || current is None || current->0 == at
}

/// A kind is asked for: no single kind is, or this one is.
pub open spec fn asked_for(kinds: Seq<ElementKind>, kind: ElementKind) -> bool {
    (forall|i: int| 0 <= i < kinds.len() ==> (#[trigger] kinds[i]) is All) || !(kind is All)
        && kinds.contains(kind)
}

proof fn lemma_single(kinds: Seq<ElementKind>)
    ensures
        forall|kind: ElementKind| #[trigger]
            crate::pages::only_single(kinds).contains(kind) <==> kinds.contains(kind) && !(
            kind is All),
    decreases kinds.len(),
{
    if kinds.len() > 0 {
        lemma_single(kinds.drop_last());
        lemma_last_apart(kinds);
        lemma_longer(crate::pages::only_single(kinds.drop_last()), kinds.last());
    }
}

proof fn lemma_passes(kinds: Seq<ElementKind>, kind: ElementKind)
    requires
        !(kind is All),
    ensures
        crate::pages::passes(kinds, kind) <==> asked_for(kinds, kind),
{
    lemma_single(kinds);
    let single = crate::pages::only_single(kinds);
    if single.len() == 0 {
        assert forall|i: int| 0 <= i < kinds.len() implies (#[trigger] kinds[i]) is All by {
            if !(kinds[i] is All) {
                assert(kinds.contains(kinds[i]));
                assert(single.contains(kinds[i]));
            }
        }
    } else {
        assert(single.contains(single[0]));
        let i = choose|i: int| 0 <= i < kinds.len() && kinds[i] == single[0];
        assert(!(kinds[i] is All));
    }
}

/// What is found of a layer on a page.
pub open spec fn finds(doc: Doc, at: int, layer: NodeId, request: SearchRequest, found: Found) -> bool {
    &&& found.node == layer
    &&& found.page_index == at
    &&& crate::scene::find(doc.nodes@, layer) matches Some(node) && {
        &&& found.field is Name <==> occurs(node.name@, request)
        &&& found.field is TextContent ==> (text_in(*node.data) matches Some(text) && occurs(
            text,
            request,
        ))
        &&& found.kind == crate::pages::kind_of(doc, layer, *node.data)
    }
}

/// The layer has the query in its name or in its text.
pub open spec fn has_query(doc: Doc, layer: NodeId, request: SearchRequest) -> bool {
    crate::scene::find(doc.nodes@, layer) matches Some(node) && (occurs(node.name@, request) || (
    text_in(*node.data) matches Some(text) && occurs(text, request)))
}

proof fn lemma_found_among(
    doc: Doc,
    page_index: usize,
    ids: Seq<NodeId>,
    request: SearchRequest,
)
    ensures
        ({
            let all = crate::pages::found_among(doc, page_index, ids, request);
            &&& forall|found: Found| #[trigger]
                all.contains(found) ==> ids.contains(found.node) && has_query(
                    doc,
                    found.node,
                    request,
                ) && finds(doc, page_index as int, found.node, request, found)
            &&& forall|layer: NodeId| #[trigger]
                ids.contains(layer) && has_query(doc, layer, request) ==> exists|found: Found| #[trigger]
                    all.contains(found) && finds(doc, page_index as int, layer, request, found)
        }),
    decreases ids.len(),
{
    let all = crate::pages::found_among(doc, page_index, ids, request);
    if ids.len() > 0 {
        let rest = ids.drop_last();
        lemma_found_among(doc, page_index, rest, request);
        let before = crate::pages::found_among(doc, page_index, rest, request);
        lemma_last_apart(ids);
        let last = ids.last();
        if all != before {
            let new = all.last();
            lemma_longer(before, new);
            assert(all =~= before.push(new));
            assert(finds(doc, page_index as int, last, request, new));
        }
        assert forall|layer: NodeId| #[trigger]
            ids.contains(layer) && has_query(doc, layer, request) implies exists|found: Found| #[trigger]
            all.contains(found) && finds(doc, page_index as int, layer, request, found) by {
            if rest.contains(layer) {
                let found = choose|found: Found| #[trigger]
                    before.contains(found) && finds(doc, page_index as int, layer, request, found);
                if all != before {
                    assert(before.push(all.last()).contains(found));
                }
                assert(all.contains(found));
            } else {
                assert(layer == last);
                assert(all.len() == before.len() + 1);
                assert(all.contains(all.last()));
            }
        }
    }
}

proof fn lemma_found_on(
    doc: Doc,
    pages: Seq<Page>,
    n: int,
    current: Option<usize>,
    request: SearchRequest,
)
    requires
        0 <= n <= pages.len() <= usize::MAX,
    ensures
        ({
            let all = crate::pages::found_on(doc, pages, n, current, request);
            &&& forall|found: Found| #[trigger]
                all.contains(found) ==> found.page_index < n && in_scope(
                    pages,
                    found.page_index as int,
                    current,
                    request.scope,
                ) && crate::pages::page_layers(doc, pages[found.page_index as int]).contains(
                    found.node,
                ) && has_query(doc, found.node, request) && finds(
                    doc,
                    found.page_index as int,
                    found.node,
                    request,
                    found,
                )
            &&& forall|at: int, layer: NodeId|
                #![trigger crate::pages::page_layers(doc, pages[at]).contains(layer)]
                at < n && in_scope(pages, at, current, request.scope) && crate::pages::page_layers(
                    doc,
                    pages[at],
                ).contains(layer) && has_query(doc, layer, request) ==> exists|found: Found| #[trigger]
                    all.contains(found) && finds(doc, at, layer, request, found)
        }),
    decreases n,
{
    let all = crate::pages::found_on(doc, pages, n, current, request);
    if n > 0 {
        lemma_found_on(doc, pages, n - 1, current, request);
        let before = crate::pages::found_on(doc, pages, n - 1, current, request);
        let ids = crate::pages::page_layers(doc, pages[n - 1]);
        let here = crate::pages::found_among(doc, (n - 1) as usize, ids, request);
        lemma_found_among(doc, (n - 1) as usize, ids, request);
        assert(crate::pages::searched(pages, n - 1, current, request.scope) == in_scope(
            pages,
            n - 1,
            current,
            request.scope,
        ));
        if in_scope(pages, n - 1, current, request.scope) {
            assert(all =~= before + here);
            assert forall|found: Found| #[trigger] all.contains(found) <==> before.contains(found)
                || here.contains(found) by {
                if all.contains(found) {
                    let i = choose|i: int| 0 <= i < all.len() && all[i] == found;
                    if i < before.len() {
                        assert(before[i] == found);
                    } else {
                        assert(here[i - before.len()] == found);
                    }
                }
                if before.contains(found) {
                    let i = choose|i: int| 0 <= i < before.len() && before[i] == found;
                    assert(all[i] == found);
                }
                if here.contains(found) {
                    let i = choose|i: int| 0 <= i < here.len() && here[i] == found;
                    assert(all[before.len() + i] == found);
                }
            }
        }
        assert forall|at: int, layer: NodeId|
            #![trigger crate::pages::page_layers(doc, pages[at]).contains(layer)]
            at < n && in_scope(pages, at, current, request.scope) && crate::pages::page_layers(
                doc,
                pages[at],
            ).contains(layer) && has_query(doc, layer, request) implies exists|found: Found| #[trigger]
            all.contains(found) && finds(doc, at, layer, request, found) by {
            if at < n - 1 {
                let found = choose|found: Found| #[trigger]
                    before.contains(found) && finds(doc, at, layer, request, found);
                assert(all.contains(found));
            } else {
                let found = choose|found: Found| #[trigger]
                    here.contains(found) && finds(doc, at, layer, request, found);
                assert(all.contains(found));
            }
        }
    }
}

proof fn lemma_filtered(found: Seq<Found>, kinds: Seq<ElementKind>)
    ensures
        forall|x: Found| #[trigger]
            crate::pages::filtered(found, kinds).contains(x) <==> found.contains(x)
                && crate::pages::passes(kinds, x.kind),
    decreases found.len(),
{
    if found.len() > 0 {
        lemma_filtered(found.drop_last(), kinds);
        lemma_last_apart(found);
        lemma_longer(crate::pages::filtered(found.drop_last(), kinds), found.last());
    }
}

/// A search misses nothing: every layer of a page that is searched, of a kind that is
/// asked for, with the query in its name or its text, has a result that leads to it.
pub proof fn lemma_search_misses_nothing(
    results: SearchResults,
    doc: Doc,
    pages: Seq<Page>,
    current: Option<usize>,
    request: SearchRequest,
    order: Seq<ElementKind>,
    at: int,
    layer: NodeId,
)
    requires
        crate::pages::search_outcome(results, doc, pages, current, request, order),
        pages.len() <= usize::MAX,
        in_scope(pages, at, current, request.scope),
        crate::pages::page_layers(doc, pages[at]).contains(layer),
        has_query(doc, layer, request),
        asked_for(
            request.element_kinds@,
            crate::pages::kind_of(doc, layer, *crate::scene::find(doc.nodes@, layer)->0.data),
        ),
    ensures
        exists|k: int|
            0 <= k < results.hits@.len() && (#[trigger] results.hits@[k]).node == layer
                && results.hits@[k].page_index == at && results.items@[k].id == layer && (
            results.hits@[k].field is Name <==> occurs(
                crate::scene::find(doc.nodes@, layer)->0.name@,
                request,
            )),
{
    let all = crate::pages::found_on(doc, pages, pages.len() as int, current, request);
    lemma_found_on(doc, pages, pages.len() as int, current, request);
    let shown = crate::pages::filtered(all, request.element_kinds@);
    lemma_filtered(all, request.element_kinds@);
    let found = choose|found: Found| #[trigger]
        all.contains(found) && finds(doc, at, layer, request, found);
    lemma_passes(request.element_kinds@, found.kind);
    assert(shown.contains(found));
    let k = choose|k: int| 0 <= k < shown.len() && shown[k] == found;
    assert(crate::pages::result_shows(results.items@[k], results.hits@[k], shown[k], doc, pages));
    assert(results.hits@[k].node == layer);
}

/// A search shows nothing else: every result leads to a layer of a page that is
/// searched, of a kind that is asked for, that has the query in the field it names; its
/// page is named as the page is.
pub proof fn lemma_search_shows_matches(
    results: SearchResults,
    doc: Doc,
    pages: Seq<Page>,
    current: Option<usize>,
    request: SearchRequest,
    order: Seq<ElementKind>,
    k: int,
)
    requires
        crate::pages::search_outcome(results, doc, pages, current, request, order),
        pages.len() <= usize::MAX,
        0 <= k < results.hits@.len(),
    ensures
        ({
            let hit = results.hits@[k];
            let item = results.items@[k];
            &&& results.total == results.items@.len()
            &&& results.items@.len() == results.hits@.len()
            &&& in_scope(pages, hit.page_index as int, current, request.scope)
            &&& crate::pages::page_layers(doc, pages[hit.page_index as int]).contains(hit.node)
            &&& item.id == hit.node
            &&& item.parent == pages[hit.page_index as int].name
            &&& crate::scene::find(doc.nodes@, hit.node) matches Some(node) && {
                &&& item.kind == crate::pages::kind_of(doc, hit.node, *node.data)
                &&& asked_for(request.element_kinds@, item.kind)
                &&& hit.field is Name ==> occurs(node.name@, request) && item.title@ == node.name@
                &&& hit.field is TextContent ==> !occurs(node.name@, request) && (text_in(
                    *node.data,
                ) matches Some(text) && occurs(text, request) && (node.name@.len() > 0
                    ==> item.title@ == text))
            }
        }),
{
    let all = crate::pages::found_on(doc, pages, pages.len() as int, current, request);
    lemma_found_on(doc, pages, pages.len() as int, current, request);
    let shown = crate::pages::filtered(all, request.element_kinds@);
    lemma_filtered(all, request.element_kinds@);
    assert(shown.contains(shown[k]));
    assert(crate::pages::result_shows(results.items@[k], results.hits@[k], shown[k], doc, pages));
    lemma_passes(request.element_kinds@, shown[k].kind);
}

proof fn lemma_without(ids: Seq<NodeId>, id: NodeId)
    ensures
        forall|x: NodeId| #[trigger]
            crate::pages::without(ids, id).contains(x) <==> ids.contains(x) && x != id,
    decreases ids.len(),
{
    if ids.len() > 0 {
        lemma_without(ids.drop_last(), id);
        lemma_last_apart(ids);
        lemma_longer(crate::pages::without(ids.drop_last(), id), ids.last());
    }
}

/// The layers of a page are all that stands below its top layer, without that layer, or
/// all layers where the page has none.
pub proof fn lemma_page_holds(doc: Doc, page: Page, layer: NodeId)
    ensures
        page.root is None ==> (crate::pages::page_layers(doc, page).contains(layer)
            <==> crate::scene::all_layers(doc.nodes@).contains(layer)),
        page.root is Some ==> (crate::pages::page_layers(doc, page).contains(layer) <==> layer
            != page.root->0.id && crate::scene::descendants(
            doc.nodes@,
            page.root->0.id,
        ).contains(layer)),
{
    if let Some(root) = page.root {
        lemma_without(crate::scene::descendants(doc.nodes@, root.id), root.id);
    }
}

// ---------------------------------------------------------------------------
// The toolbar
// ---------------------------------------------------------------------------

/// A canvas tool is shown under its own name; selecting is shown as moving.
pub proof fn lemma_faces_named(kind: ToolKind)
    ensures
        ({
            let face = crate::toolbar::face_of(kind);
            &&& face is Move <==> kind is Select
            &&& face is PathSelect <==> kind is PathSelect
            &&& face is NodeEdit <==> kind is NodeEdit
            &&& face is Hand <==> kind is Hand
            &&& face is Scale <==> kind is Scale
            &&& face is Rectangle <==> kind is Rect
            &&& face is Ellipse <==> kind is Ellipse
            &&& face is Line <==> kind is Line
            &&& face is Polygon <==> kind is Polygon
            &&& face is Star <==> kind is Star
            &&& face is Pen <==> kind is Pen
            &&& face is Pencil <==> kind is Pencil
            &&& face is Frame <==> kind is Frame
            &&& face is Section <==> kind is Section
            &&& face is Slice <==> kind is Slice
            &&& face is Text <==> kind is Text
            &&& face is TextPath <==> kind is TextPath
            &&& face is Comment <==> kind is Comment
        }),
{
}

/// The strip is that of motion exactly in the motion mode, and else that of design.
pub proof fn lemma_strip_of_mode(mode: EditorMode)
    ensures
        crate::toolbar::strip_of(mode) is Motion <==> mode is Motion,
        crate::toolbar::strip_of(mode) is Design <==> !(mode is Motion),
{
}

/// What a toolbar shows once it is pushed something, or keeps.
pub open spec fn pushed<T>(push: Option<T>, kept: T) -> T {
    match push {
        Some(new) => new,
        None => kept,
    }
}

/// After a refresh the toolbar shows the mode, the tool, the zoom and the transport of
/// the editor, and only what differs was pushed.
pub proof fn lemma_refresh_shows_editor(
    before: ToolbarAdapter,
    mode: EditorMode,
    tool: ToolKind,
    zoom_percent: u16,
    options: OptionInputs,
    pushes: ToolbarPushes,
)
    requires
        crate::toolbar::pushes_of(before, mode, tool, zoom_percent, options, pushes),
    ensures
        pushed(pushes.mode, before.strip.mode) is Motion <==> mode is Motion,
        pushed(pushes.tool, before.strip.tool) == crate::toolbar::face_of(tool),
        pushed(pushes.zoom_percent, before.strip.zoom_percent) == zoom_percent,
        pushes.zoom_percent is Some <==> before.strip.zoom_percent != zoom_percent,
        pushes.tool is Some ==> pushes.tool->0 != before.strip.tool,
        pushes.motion matches Some(motion) ==> motion.playing == options.playing && motion.looping
            == options.looping && motion.current_time_ms == options.current_time_ms
            && !motion.auto_keyframe && (options.duration_ms is Some ==> motion.duration_ms
            == options.duration_ms->0) && (options.duration_ms is None ==> motion.duration_ms == 0),
        before.motion is None ==> pushes.motion is Some,
        before.motion is Some && (before.motion->0.playing != options.playing
            || before.motion->0.looping != options.looping || before.motion->0.current_time_ms
            != options.current_time_ms) ==> pushes.motion is Some,
        before.agent is None ==> pushes.agent is Some,
        before.chrome is None ==> pushes.chrome is Some,
        before.chrome is Some && (before.chrome->0.layers != options.layers_sidebar_visible
            || before.chrome->0.inspector != options.inspector_sidebar_visible)
            ==> pushes.chrome is Some,
{
}

/// The controls of the sidebars: one that is there is marked and offers to hide it, one
/// that is not offers to show it, each on its own side.
pub proof fn lemma_chrome_offers_change(
    layers: bool,
    inspector: bool,
    shortcut: Option<String>,
    controls: Seq<ChromeControl>,
)
    requires
        crate::toolbar::chrome_shown(layers, inspector, shortcut, controls),
    ensures
        controls.len() == 3,
        !controls[0].active && controls[0].shortcut == shortcut,
        controls[1].active == layers,
        controls[2].active == inspector,
        controls[1].icon is PanelLeftClose <==> layers,
        controls[1].icon is PanelLeftOpen <==> !layers,
        controls[2].icon is PanelRightClose <==> inspector,
        controls[2].icon is PanelRightOpen <==> !inspector,
        controls[1].label@[0] == if layers {
            'H'
        } else {
            'S'
        },
        controls[2].label@[0] == if inspector {
            'H'
        } else {
            'S'
        },
{
    reveal_strlit("Hide Layers");
    reveal_strlit("Show Layers");
    reveal_strlit("Hide Inspector");
    reveal_strlit("Show Inspector");
}

// ---------------------------------------------------------------------------
// The header of the inspector
// ---------------------------------------------------------------------------

proof fn lemma_of_kind(doc: Doc, ids: Seq<NodeId>, kind: DesignKind)
    ensures
        forall|id: NodeId| #[trigger]
            crate::design_header::of_kind(doc, ids, kind).contains(id) <==> ids.contains(id) && (
            crate::scene::find(doc.nodes@, id) matches Some(node)
                && crate::design_values::design_kind_of(doc, id, *node.data) == kind),
    decreases ids.len(),
{
    if ids.len() > 0 {
        lemma_of_kind(doc, ids.drop_last(), kind);
        lemma_last_apart(ids);
        lemma_longer(crate::design_header::of_kind(doc, ids.drop_last(), kind), ids.last());
    }
}

/// The layers that match a layer are all layers of the page that are of its kind, and
/// no others.
pub proof fn lemma_matching_is_complete(
    doc: Doc,
    id: NodeId,
    page: Option<NodeId>,
    node: CanvasNode,
    other: NodeId,
)
    requires
        crate::scene::find(doc.nodes@, id) == Some(node),
    ensures
        crate::design_header::matching(doc, id, page).contains(other)
            <==> crate::design_header::page_layers(doc, page).contains(other) && (
        crate::scene::find(doc.nodes@, other) matches Some(found)
            && crate::design_values::design_kind_of(doc, other, *found.data)
            == crate::design_values::design_kind_of(doc, id, *node.data)),
{
    lemma_of_kind(
        doc,
        crate::design_header::page_layers(doc, page),
        kind_of_node(doc, id, node),
    );
}

spec fn kind_of_node(doc: Doc, id: NodeId, node: CanvasNode) -> DesignKind {
    crate::design_values::design_kind_of(doc, id, *node.data)
}

/// What the header offers, command by command. Nothing that changes the document is
/// offered where it may not be edited or a layer is locked; combining is offered for
/// several outlines of one parent, and editing for a single outline or text.
pub proof fn lemma_header_offers(
    doc: Doc,
    ids: Seq<NodeId>,
    page: Option<NodeId>,
    editable: bool,
    actions: OfferedActions,
    node: CanvasNode,
    header: SelectionHeader,
    op: crate::document::BooleanOp,
)
    requires
        ids.len() > 0,
        crate::scene::find(doc.nodes@, ids[0]) == Some(node),
        crate::design_header::header_outcome(doc, ids, page, editable, actions, Some(header)),
    ensures
        ({
            let free = editable && forall|i: int|
                0 <= i < ids.len() ==> crate::layer_context_ops::can_edit(doc, #[trigger] ids[i]);
            let outlines = ids.len() > 1 && forall|i: int|
                0 <= i < ids.len() ==> (crate::scene::find(
                    doc.nodes@,
                    #[trigger] ids[i],
                ) matches Some(layer) && layer.parent == node.parent && *layer.data is Vector);
            &&& crate::design_header::offers_command(header, HeaderCommand::SelectMatchingLayers)
                <==> ids.len() == 1 && crate::design_header::matching(doc, ids[0], page).len() > 1
            &&& crate::design_header::offers_command(header, HeaderCommand::CreateComponent)
                <==> free && (ids.len() > 1 || !has_component(doc, ids[0])
                && actions.create_component)
            &&& crate::design_header::offers_command(header, HeaderCommand::UseAsMask) <==> free
                && ids.len() == 1 && actions.use_as_mask
            &&& crate::design_header::offers_command(header, HeaderCommand::Flatten) <==> free
                && actions.flatten
            &&& crate::design_header::offers_command(header, HeaderCommand::Boolean(op)) <==> free
                && outlines
            &&& crate::design_header::offers_command(header, HeaderCommand::EditObject) <==> free
                && ids.len() == 1 && (*node.data is Vector || *node.data is Text)
            &&& crate::design_header::offers_command(
                header,
                HeaderCommand::Title(TitleItem::Frame),
            ) <==> free && ids.len() == 1 && *node.data is Group && actions.convert_to_frame
            &&& crate::design_header::offers_command(
                header,
                HeaderCommand::Title(TitleItem::Section),
            ) <==> free && ids.len() == 1 && *node.data is Group && actions.convert_to_section
            &&& ids.len() > 1 ==> header.title == HeaderTitle::Count(ids.len() as usize)
            &&& ids.len() == 1 ==> !(header.title is Count)
        }),
{
    let free = editable && !crate::layer_context_ops::any_locked(doc, ids);
    let controls = header.controls@;
    let alone = ids.len() == 1;
    let boolean = crate::design_header::combinable(doc, ids, node.parent);
    let matched = alone && crate::design_header::matching(doc, ids[0], page).len() > 1;
    let component = ids.len() > 1 || !crate::layer_context_ops::draws_component(doc, ids[0])
        && actions.create_component;
    assert(crate::layer_context_ops::draws_component(doc, ids[0]) == has_component(doc, ids[0]));
    let menu = HeaderControl::BooleanFlatten { boolean: boolean, flatten: actions.flatten };
    let shaped = crate::layer_components::is_text(node) || is_outline(node);
    let a = offered(matched, HeaderControl::SelectMatchingLayers);
    let b = offered(free && component, HeaderControl::CreateComponent);
    let c = offered(free && alone && actions.use_as_mask, HeaderControl::UseAsMask);
    let d = offered(free && (boolean || actions.flatten), menu);
    let e = offered(free && alone && shaped, HeaderControl::EditObject);
    assert(controls =~= a + b + c + d + e);
    lemma_joined(a, b);
    lemma_joined(a + b, c);
    lemma_joined(a + b + c, d);
    lemma_joined(a + b + c + d, e);
    lemma_offered(matched, HeaderControl::SelectMatchingLayers);
    lemma_offered(free && component, HeaderControl::CreateComponent);
    lemma_offered(free && alone && actions.use_as_mask, HeaderControl::UseAsMask);
    lemma_offered(free && (boolean || actions.flatten), menu);
    lemma_offered(free && alone && shaped, HeaderControl::EditObject);
    lemma_carried_by(header, HeaderCommand::SelectMatchingLayers);
    lemma_carried_by(header, HeaderCommand::CreateComponent);
    lemma_carried_by(header, HeaderCommand::UseAsMask);
    lemma_carried_by(header, HeaderCommand::Flatten);
    lemma_carried_by(header, HeaderCommand::Boolean(op));
    lemma_carried_by(header, HeaderCommand::EditObject);
    assert(controls.contains(HeaderControl::SelectMatchingLayers) <==> matched);
    assert(controls.contains(HeaderControl::CreateComponent) <==> free && component);
    assert(controls.contains(HeaderControl::UseAsMask) <==> free && alone && actions.use_as_mask);
    assert(controls.contains(menu) <==> free && (boolean || actions.flatten));
    assert(controls.contains(HeaderControl::EditObject) <==> free && alone && shaped);
    let turns = free && alone && crate::layer_components::is_group(node);
    let f = offered_item(turns && actions.convert_to_frame, TitleItem::Frame);
    let g = offered_item(turns && actions.convert_to_section, TitleItem::Section);
    assert(header.menu@ =~= f + g);
    lemma_joined(f, g);
    lemma_offered_item(turns && actions.convert_to_frame, TitleItem::Frame);
    lemma_offered_item(turns && actions.convert_to_section, TitleItem::Section);
    assert(header.menu@.contains(TitleItem::Frame) <==> turns && actions.convert_to_frame);
    assert(header.menu@.contains(TitleItem::Section) <==> turns && actions.convert_to_section);
}

spec fn is_outline(node: CanvasNode) -> bool {
    *node.data is Vector
}

spec fn offered(here: bool, control: HeaderControl) -> Seq<HeaderControl> {
    if here {
        seq![control]
    } else {
        Seq::empty()
    }
}

proof fn lemma_offered(here: bool, control: HeaderControl)
    ensures
        forall|x: HeaderControl| #[trigger]
            offered(here, control).contains(x) <==> here && x == control,
{
    if here {
        assert(offered(here, control)[0] == control);
    }
}

spec fn offered_item(here: bool, item: TitleItem) -> Seq<TitleItem> {
    if here {
        seq![item]
    } else {
        Seq::empty()
    }
}

proof fn lemma_offered_item(here: bool, item: TitleItem)
    ensures
        forall|x: TitleItem| #[trigger]
            offered_item(here, item).contains(x) <==> here && x == item,
{
    if here {
        assert(offered_item(here, item)[0] == item);
    }
}

/// A command is offered exactly where some control carries it out.
proof fn lemma_carried_by(header: SelectionHeader, command: HeaderCommand)
    requires
        !(command is Title),
    ensures
        crate::design_header::offers_command(header, command) <==> exists|control: HeaderControl| #[trigger]
            header.controls@.contains(control) && crate::design_header::carries(control, command),
{
    let controls = header.controls@;
    if crate::design_header::offers_command(header, command) {
        let i = choose|i: int|
            0 <= i < controls.len() && crate::design_header::carries(
                #[trigger] controls[i],
                command,
            );
        assert(controls.contains(controls[i]));
    }
    if exists|control: HeaderControl| #[trigger]
        controls.contains(control) && crate::design_header::carries(control, command) {
        let control = choose|control: HeaderControl| #[trigger]
            controls.contains(control) && crate::design_header::carries(control, command);
        let i = choose|i: int| 0 <= i < controls.len() && controls[i] == control;
        assert(crate::design_header::carries(controls[i], command));
    }
}

/// Two lists joined.
proof fn lemma_joined<T>(a: Seq<T>, b: Seq<T>)
    ensures
        forall|x: T| #[trigger] (a + b).contains(x) <==> a.contains(x) || b.contains(x),
{
    assert forall|x: T| #[trigger] (a + b).contains(x) <==> a.contains(x) || b.contains(x) by {
        if (a + b).contains(x) {
            let i = choose|i: int| 0 <= i < (a + b).len() && (a + b)[i] == x;
            if i < a.len() {
                assert(a[i] == x);
            } else {
                assert(b[i - a.len()] == x);
            }
        }
        if a.contains(x) {
            let i = choose|i: int| 0 <= i < a.len() && a[i] == x;
            assert((a + b)[i] == x);
        }
        if b.contains(x) {
            let i = choose|i: int| 0 <= i < b.len() && b[i] == x;
            assert((a + b)[a.len() + i] == x);
        }
    }
}

// ---------------------------------------------------------------------------
// Combining layers
// ---------------------------------------------------------------------------

/// The place of a layer among its siblings.
pub open spec fn place(doc: Doc, id: NodeId) -> int {
    match crate::scene::find(doc.nodes@, id) {
        Some(node) => node.index.rank as int,
        None => i64::MIN - 1,
    }
}

proof fn lemma_operand_inserted(doc: Doc, ids: Seq<NodeId>, id: NodeId)
    requires
        forall|j: int, k: int|
            0 <= j < k < ids.len() ==> place(doc, #[trigger] ids[j]) <= place(
                doc,
                #[trigger] ids[k],
            ),
    ensures
        ({
            let all = crate::design_header::operand_inserted(doc, ids, id);
            &&& all.len() == ids.len() + 1
            &&& forall|j: int, k: int|
                0 <= j < k < all.len() ==> place(doc, #[trigger] all[j]) <= place(
                    doc,
                    #[trigger] all[k],
                )
            &&& forall|x: NodeId| #[trigger] all.contains(x) <==> x == id || ids.contains(x)
        }),
    decreases ids.len(),
{
    let all = crate::design_header::operand_inserted(doc, ids, id);
    if ids.len() == 0 || place(doc, ids.last()) <= place(doc, id) {
        lemma_longer(ids, id);
        assert(all =~= ids.push(id));
        assert forall|j: int, k: int| 0 <= j < k < all.len() implies place(doc, #[trigger] all[j])
            <= place(doc, #[trigger] all[k]) by {
            if k == ids.len() && j < ids.len() - 1 {
                assert(place(doc, ids[j]) <= place(doc, ids[ids.len() - 1]));
            }
        }
    } else {
        let rest = ids.drop_last();
        lemma_operand_inserted(doc, rest, id);
        let inner = crate::design_header::operand_inserted(doc, rest, id);
        lemma_longer(inner, ids.last());
        lemma_last_apart(ids);
        assert(all =~= inner.push(ids.last()));
        assert forall|j: int, k: int| 0 <= j < k < all.len() implies place(doc, #[trigger] all[j])
            <= place(doc, #[trigger] all[k]) by {
            if k == inner.len() {
                assert(inner.contains(inner[j]));
                if inner[j] != id {
                    let m = choose|m: int| 0 <= m < rest.len() && rest[m] == inner[j];
                    assert(ids[m] == inner[j]);
                    assert(place(doc, ids[m]) <= place(doc, ids[ids.len() - 1]));
                }
            }
        }
    }
}

/// The layers to combine are the ones that are meant, from the one painted first to the
/// one painted last.
pub proof fn lemma_operands_in_paint_order(doc: Doc, ids: Seq<NodeId>)
    ensures
        ({
            let sorted = crate::design_header::operands_of(doc, ids);
            &&& sorted.len() == ids.len()
            &&& forall|j: int, k: int|
                0 <= j < k < sorted.len() ==> place(doc, #[trigger] sorted[j]) <= place(
                    doc,
                    #[trigger] sorted[k],
                )
            &&& forall|id: NodeId| #[trigger] sorted.contains(id) <==> ids.contains(id)
        }),
    decreases ids.len(),
{
    if ids.len() > 0 {
        lemma_operands_in_paint_order(doc, ids.drop_last());
        lemma_operand_inserted(
            doc,
            crate::design_header::operands_of(doc, ids.drop_last()),
            ids.last(),
        );
        lemma_last_apart(ids);
    }
}

// ---------------------------------------------------------------------------
// Edits of several layers
// ---------------------------------------------------------------------------

proof fn lemma_all_moved(
    doc: Doc,
    ids: Seq<NodeId>,
    moved: Seq<Option<Transform>>,
    k: int,
)
    requires
        doc.well_formed(),
        0 <= k <= ids.len(),
        crate::design_targets::all_movable(doc, ids, moved),
        forall|i: int, j: int| 0 <= i < j < ids.len() ==> #[trigger] ids[i] != #[trigger] ids[j],
    ensures
        ({
            let before = doc.content();
            let operations = crate::design_targets::moves(doc, ids, moved).take(k);
            let after = crate::operations::all_applied(before, operations);
            &&& crate::operations::carried(before, operations)
            &&& after == (Content { nodes: after.nodes, ..before })
            &&& after.nodes.dom() =~= before.nodes.dom()
            &&& forall|i: int|
                0 <= i < ids.len() ==> after.nodes[#[trigger] ids[i]] == if i < k {
                    CanvasNode { transform: moved[i]->0, ..before.nodes[ids[i]] }
                } else {
                    before.nodes[ids[i]]
                }
            &&& forall|id: NodeId|
                before.nodes.dom().contains(id) && !ids.contains(id) ==> #[trigger] after.nodes[id]
                    == before.nodes[id]
        }),
    decreases k,
{
    let before = doc.content();
    let all = crate::design_targets::moves(doc, ids, moved);
    if k == 0 {
        assert(all.take(0) =~= Seq::<Operation>::empty());
    } else {
        lemma_all_moved(doc, ids, moved, k - 1);
        let part = all.take(k);
        assert(part.drop_last() =~= all.take(k - 1));
        let id = ids[k - 1];
        crate::operations::lemma_find_is_content(doc, id);
        assert(crate::scene::find(doc.nodes@, ids[k - 1]) is Some);
        let middle = crate::operations::all_applied(before, all.take(k - 1));
        let after = crate::operations::all_applied(before, part);
        assert(part.last() == all[k - 1]);
        assert(after == crate::operations::applied(middle, all[k - 1]));
        assert(middle.nodes[id] == before.nodes[id]);
        assert forall|i: int| 0 <= i < ids.len() implies after.nodes[#[trigger] ids[i]] == if i < k {
            CanvasNode { transform: moved[i]->0, ..before.nodes[ids[i]] }
        } else {
            before.nodes[ids[i]]
        } by {
            if i < k - 1 {
                assert(ids[i] != ids[k - 1]);
            } else if i > k - 1 {
                assert(ids[k - 1] != ids[i]);
            }
        }
        assert(ids.contains(id));
    }
}

/// Place and size of several layers are those of the box around them: a number that is
/// where the box already is moves nothing, a size must be above zero, and otherwise each
/// layer takes the transform that the box gives it, and nothing else changes.
pub proof fn lemma_joint_edit_lands(
    doc: Doc,
    ids: Seq<NodeId>,
    property: DesignProperty,
    number: Scalar,
    facts: TargetFacts,
    bounds: SelectionBox,
    r: Option<TargetedEdit>,
)
    requires
        doc.well_formed(),
        property is X || property is Y || property is Width || property is Height,
        facts.bounds == Some(bounds),
        forall|i: int, j: int| 0 <= i < j < ids.len() ==> #[trigger] ids[i] != #[trigger] ids[j],
        crate::design_targets::targeted_outcome(
            doc,
            ids,
            property,
            DesignValue::Number(number),
            facts,
            r,
        ),
    ensures
        r is Some ==> r->0 is Moved,
        !number.finite() ==> r is None,
        property is Width && number.finite() && (number.rank() <= 0 || !bounds.width.nan()
            && bounds.width.rank() <= 0) ==> r is None,
        property is Height && number.finite() && (number.rank() <= 0 || !bounds.height.nan()
            && bounds.height.rank() <= 0) ==> r is None,
        property is X && number.finite() && number.same(bounds.min_x) ==> r is Some
            && r->0->Moved_0@.len() == 0,
        property is Y && number.finite() && number.same(bounds.min_y) ==> r is Some
            && r->0->Moved_0@.len() == 0,
        r is Some && r->0->Moved_0@.len() > 0 ==> ({
            let before = doc.content();
            let after = crate::operations::all_applied(before, r->0->Moved_0@);
            &&& crate::operations::carried(before, r->0->Moved_0@)
            &&& after == (Content { nodes: after.nodes, ..before })
            &&& after.nodes.dom() == before.nodes.dom()
            &&& forall|i: int|
                0 <= i < ids.len() ==> i < facts.moved@.len() && facts.moved@[i] is Some
                    && after.nodes[#[trigger] ids[i]] == (CanvasNode {
                    transform: facts.moved@[i]->0,
                    ..before.nodes[ids[i]]
                })
            &&& forall|id: NodeId|
                before.nodes.dom().contains(id) && !ids.contains(id) ==> #[trigger] after.nodes[id]
                    == before.nodes[id]
        }),
{
    if r is Some && r->0->Moved_0@.len() > 0 {
        lemma_all_moved(doc, ids, facts.moved@, ids.len() as int);
        let all = crate::design_targets::moves(doc, ids, facts.moved@);
        assert(all.take(ids.len() as int) =~= all);
    }
}

/// Aligning and distributing go by their names, and tidying up works along the direction
/// in which the layers lie farther apart: across it they are aligned, and along it they
/// are distributed.
pub proof fn lemma_arrangement_named(
    operation: ArrangeOperation,
    count: nat,
    spans: Option<CenterSpans>,
)
    ensures
        ({
            let plan = crate::design_targets::arrange_plan_of(operation, count, spans);
            &&& plan == Some(ArrangePlan::One(ArrangeStep::Left)) <==> operation is AlignLeft
            &&& plan == Some(ArrangePlan::One(ArrangeStep::Center))
                <==> operation is AlignHorizontalCenter
            &&& plan == Some(ArrangePlan::One(ArrangeStep::Right)) <==> operation is AlignRight
            &&& plan == Some(ArrangePlan::One(ArrangeStep::Top)) <==> operation is AlignTop
            &&& plan == Some(ArrangePlan::One(ArrangeStep::Middle))
                <==> operation is AlignVerticalCenter
            &&& plan == Some(ArrangePlan::One(ArrangeStep::Bottom)) <==> operation is AlignBottom
            &&& plan == Some(ArrangePlan::One(ArrangeStep::DistributeX))
                <==> operation is DistributeHorizontal
            &&& plan == Some(ArrangePlan::One(ArrangeStep::DistributeY))
                <==> operation is DistributeVertical
            &&& operation is TidyUp && count < 2 ==> plan == Some(ArrangePlan::Nothing)
            &&& operation is TidyUp && count >= 2 && spans is None ==> plan is None
            &&& operation is TidyUp && count >= 2 && spans is Some && !spans->0.horizontal.nan()
                && !spans->0.vertical.nan() ==> plan == Some(
                if spans->0.horizontal.rank() >= spans->0.vertical.rank() {
                    ArrangePlan::Tidy {
                        align: ArrangeStep::Middle,
                        distribute: ArrangeStep::DistributeX,
                    }
                } else {
                    ArrangePlan::Tidy {
                        align: ArrangeStep::Center,
                        distribute: ArrangeStep::DistributeY,
                    }
                },
            )
        }),
{
}

/// Every layer that shows a rotation is turned to the degrees that are given for it, and
/// no other.
pub proof fn lemma_turned_members(ids: Seq<NodeId>, degrees: Seq<Option<Scalar>>)
    ensures
        forall|id: NodeId, turn: Scalar| #[trigger]
            crate::design_targets::turned(ids, degrees).contains((id, turn)) <==> exists|i: int|
                0 <= i < ids.len() && i < degrees.len() && (#[trigger] ids[i]) == id && degrees[i]
                    == Some(turn),
    decreases ids.len(),
{
    if ids.len() > 0 {
        let rest = ids.drop_last();
        let at = ids.len() - 1;
        lemma_turned_members(rest, degrees);
        let before = crate::design_targets::turned(rest, degrees);
        let all = crate::design_targets::turned(ids, degrees);
        if at < degrees.len() && degrees[at] is Some {
            lemma_longer(before, (ids[at], degrees[at]->0));
        }
        assert forall|id: NodeId, turn: Scalar| #[trigger]
            all.contains((id, turn)) <==> exists|i: int|
                0 <= i < ids.len() && i < degrees.len() && (#[trigger] ids[i]) == id && degrees[i]
                    == Some(turn) by {
            if before.contains((id, turn)) {
                let i = choose|i: int|
                    0 <= i < rest.len() && i < degrees.len() && (#[trigger] rest[i]) == id
                        && degrees[i] == Some(turn);
                assert(ids[i] == id);
            }
            if exists|i: int|
                0 <= i < ids.len() && i < degrees.len() && (#[trigger] ids[i]) == id && degrees[i]
                    == Some(turn) {
                let i = choose|i: int|
                    0 <= i < ids.len() && i < degrees.len() && (#[trigger] ids[i]) == id
                        && degrees[i] == Some(turn);
                if i < at {
                    assert(rest[i] == id);
                    assert(before.contains((id, turn)));
                } else {
                    assert(ids[at] == id);
                }
            }
        }
    }
}

// ---------------------------------------------------------------------------
// Switches and steps
// ---------------------------------------------------------------------------

/// A surface is off exactly where its switch is a nought, or the word for false or for
/// off.
pub proof fn lemma_switch_words(word: &str)
    ensures
        crate::switches::switched_on(None),
        crate::switches::switched_on(Some(word)) <==> word@ != seq!['0'] && word@ != seq![
            'f',
            'a',
            'l',
            's',
            'e',
        ] && word@ != seq!['o', 'f', 'f'],
{
    reveal_strlit("0");
    reveal_strlit("false");
    reveal_strlit("off");
    assert("0"@ =~= seq!['0']);
    assert("false"@ =~= seq!['f', 'a', 'l', 's', 'e']);
    assert("off"@ =~= seq!['o', 'f', 'f']);
}

/// A text takes nothing but plain colors; any other layer takes every type of paint, and
/// films where they play.
pub proof fn lemma_paint_types_offered(text: bool, plays_video: bool, paint: PaintType)
    ensures
        crate::switches::paint_types(text, plays_video).contains(paint) <==> paint is Solid || !text
            && (plays_video || !(paint is Video)),
{
    let types = crate::switches::paint_types(text, plays_video);
    if text {
        assert(types[0] == PaintType::Solid);
    } else if plays_video {
        assert(types[0] == PaintType::Solid && types[1] == PaintType::Gradient && types[2]
            == PaintType::Pattern && types[3] == PaintType::Image && types[4] == PaintType::Video
            && types[5] == PaintType::Shader);
    } else {
        assert(types[0] == PaintType::Solid && types[1] == PaintType::Gradient && types[2]
            == PaintType::Pattern && types[3] == PaintType::Image && types[4]
            == PaintType::Shader);
    }
}

/// A scrub moves by more with Shift held than without, and by less with Alt alone.
pub proof fn lemma_scrub_steps(shift: bool, alt: bool, step: ScrubStep)
    requires
        call_ensures(scrub_step, (shift, alt), step),
    ensures
        step is Ten <==> shift,
        step is Tenth <==> alt && !shift,
        step is One <==> !alt && !shift,
{
}

/// Of the live tools only the one that edits says that it writes, and none says that it
/// reaches beyond the document.
pub proof fn lemma_one_tool_writes(tool: LiveTool)
    ensures
        ({
            let says = crate::live_mcp::tool_annotations(tool);
            &&& says.read_only == Some(!(tool is BatchDesign))
            &&& says.destructive == Some(tool is BatchDesign)
            &&& says.open_world == Some(false)
            &&& says.idempotent is Some ==> tool is BatchDesign && says.idempotent == Some(false)
        }),
{
}

} // verus!
