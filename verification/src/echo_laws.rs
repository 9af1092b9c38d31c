//! Laws: what the panel shows of a document, and what it does with choices, media
//! and instances.

use vstd::prelude::*;

use crate::design_media::PreviewState;
use crate::design_paint_view::{DesignPaint, MediaView, ShownPayload, VideoPreview};
use crate::design_session::{CropSession, DesignAdapter, Echo, EchoFacts};
use crate::design_snapshot::{PageBackground, PageView, SnapshotFacts};
use crate::design_targets::DesignTarget;
use crate::document::{ComponentDef, Doc, NodeData};
use crate::ids::{AssetId, ComponentId, DocId, NodeId};
use crate::instance_text::ExpandedNode;
use crate::layer_context_menu::Choice;
use crate::layer_media::NewMedia;
use crate::paint::{Color, CropWindow};
use crate::panel::FantaDesignPanel;

verus! {

// ---------------------------------------------------------------------------
// What is shown
// ---------------------------------------------------------------------------

/// The selection that is shown holds every selected layer that is still there, in
/// its order, and no other.
pub proof fn lemma_selection_shown(doc: Doc, ids: Seq<NodeId>, last: NodeId)
    requires
        doc.well_formed(),
    ensures
        crate::panel::still_there(doc, Seq::empty()) == Seq::<NodeId>::empty(),
        crate::panel::still_there(doc, ids.push(last)) == (
        if doc.content().nodes.dom().contains(last) {
            crate::panel::still_there(doc, ids).push(last)
        } else {
            crate::panel::still_there(doc, ids)
        }),
{
    crate::operations::lemma_find_is_content(doc, last);
    assert(ids.push(last).drop_last() =~= ids);
}

/// The page is exported exactly while no layer is selected; otherwise the selected
/// layers are, in their order. Fills can be added and removed unless the one layer
/// that is selected is a text.
pub proof fn lemma_echo_follows_selection(
    doc: Doc,
    editable: bool,
    page_index: Option<usize>,
    adapter: DesignAdapter,
    facts: EchoFacts,
    echo: Echo,
)
    requires
        doc.well_formed(),
        crate::design_session::echo_of(doc, editable, page_index, adapter, facts, echo),
    ensures
        echo.export_target is Page <==> echo.selection@.len() == 0,
        echo.export_target matches DesignTarget::Nodes(ids) ==> ids@.len()
            == echo.selection@.len() && forall|i: int|
            0 <= i < ids@.len() ==> #[trigger] ids@[i] == Some(echo.selection@[i]),
        echo.exports@ == adapter.exports@,
        echo.send_fonts == adapter.fonts_dirty,
        echo.fill_actions != echo.text_selection,
        echo.selection@.len() != 1 ==> echo.fill_actions && echo.pattern_sources@.len() == 0,
        echo.selection@.len() == 1 ==> (echo.text_selection
            == (doc.content().nodes.dom().contains(echo.selection@[0])
            && *doc.content().nodes[echo.selection@[0]].data is Text)),
        echo.view.editor == editable,
        echo.selection@.len() > 0 ==> echo.view.page == facts.previous_page,
        echo.selection@.len() == 0 ==> echo.view.page is Some,
{
    if echo.selection@.len() == 1 {
        crate::operations::lemma_find_is_content(doc, echo.selection@[0]);
    }
    if echo.selection@.len() != 1 {
        assert(crate::design_paints::shown_candidates(echo.pattern_sources@).len()
            == echo.pattern_sources@.len());
    }
}

/// A page of one color shows that color, one that has none the color that pages
/// start with; what is no color can be looked at only.
pub proof fn lemma_page_background_shown(
    facts: SnapshotFacts,
    index: Option<usize>,
    page: PageView,
)
    requires
        crate::design_snapshot::page_shown(facts, index, page),
    ensures
        facts.page_background matches PageBackground::Solid(color) ==> page.background == color,
        facts.page_background is Missing ==> page.background == facts.default_background,
        facts.page_background is Other ==> page.background == (Color {
            r: 255,
            g: 255,
            b: 255,
            a: 255,
        }),
        page.read_only <==> facts.page_background is Other,
        facts.page_root matches Some(root) ==> page.page_id@ == root@,
{
}

/// The header is that of the page that is looked at, and of the active page while
/// none is.
pub proof fn lemma_header_page(doc: Doc, index: usize)
    ensures
        index < doc.pages@.len() ==> crate::design_snapshot::header_page(doc, Some(index)) == Some(
            doc.pages@[index as int],
        ),
        index >= doc.pages@.len() ==> crate::design_snapshot::header_page(doc, Some(index))
            == doc.active_page,
        crate::design_snapshot::header_page(doc, None) == doc.active_page,
{
}

/// A video's preview stands as the first one of its asset does; without one it is
/// still to come.
pub proof fn lemma_first_preview(previews: Seq<VideoPreview>, asset: AssetId, at: int)
    requires
        0 <= at <= previews.len(),
        forall|k: int| 0 <= k < at ==> (#[trigger] previews[k]).asset != asset,
        at < previews.len() ==> previews[at].asset == asset,
    ensures
        crate::design_paint_view::preview_of(previews, asset) == (if at < previews.len() {
            previews[at].state
        } else {
            PreviewState::Loading
        }),
    decreases previews.len(),
{
    if previews.len() > 0 && at > 0 {
        let rest = previews.skip(1);
        assert(previews[0].asset != asset);
        assert forall|k: int| 0 <= k < at - 1 implies (#[trigger] rest[k]).asset != asset by {
            assert(previews[k + 1].asset != asset);
        }
        lemma_first_preview(rest, asset, at - 1);
    }
}

proof fn lemma_media_counted(paints: Seq<DesignPaint>, from: int, end: int)
    requires
        0 <= from <= end <= paints.len(),
    ensures
        0 <= crate::design_paint_view::media_before(paints, from)
            <= crate::design_paint_view::media_before(paints, end),
    decreases end,
{
    if from < end {
        lemma_media_counted(paints, from, end - 1);
    } else if end > 0 {
        lemma_media_counted(paints, 0, end - 1);
        lemma_media_counted(paints, end - 1, end - 1);
    }
}

proof fn lemma_media_at(paints: Seq<DesignPaint>, end: int, place: int) -> (i: int)
    requires
        0 <= end <= paints.len(),
        0 <= place < crate::design_paint_view::media_before(paints, end),
    ensures
        0 <= i < end,
        paints[i].payload is Image || paints[i].payload is Video,
        crate::design_paint_view::media_before(paints, i) == place,
    decreases end,
{
    if place < crate::design_paint_view::media_before(paints, end - 1) {
        lemma_media_at(paints, end - 1, place)
    } else {
        end - 1
    }
}

/// Every picture and every video among the paints of a layer has one view, in the
/// order of the paints, which names its place; no other paint has one.
pub proof fn lemma_media_has_view(
    views: Seq<MediaView>,
    node: NodeId,
    paints: Seq<DesignPaint>,
    is_stroke: bool,
    crop: Option<CropSession>,
    previews: Seq<VideoPreview>,
)
    requires
        crate::design_paint_view::media_listed(views, node, paints, is_stroke, crop, previews),
    ensures
        forall|v: int|
            0 <= v < views.len() ==> ({
                let view = #[trigger] views[v];
                let paint = paints[view.index as int];
                &&& view.index < paints.len()
                &&& paint.payload is Image || paint.payload is Video
                &&& view.is_stroke == is_stroke
                &&& view.paint_id == paint.id
                &&& paint.payload is Image ==> view.video is None && view.preview is None
                &&& paint.payload matches ShownPayload::Video { asset, .. } ==> view.video == Some(
                    asset,
                ) && view.preview is Some
                &&& view.crop is Some <==> crop is Some && crop->0.place.node == node
                    && crop->0.place.is_stroke == is_stroke && crop->0.place.index == view.index
                &&& view.crop is Some ==> view.crop->0 == crop->0.tool
            }),
        forall|v: int, w: int|
            0 <= v < w < views.len() ==> (#[trigger] views[v]).index < (#[trigger] views[w]).index,
        forall|i: int|
            #![trigger paints[i]]
            0 <= i < paints.len() && (paints[i].payload is Image || paints[i].payload is Video)
                ==> exists|v: int| 0 <= v < views.len() && (#[trigger] views[v]).index == i,
{
    let end = paints.len() as int;
    assert forall|v: int| 0 <= v < views.len() implies ({
        let view = #[trigger] views[v];
        let paint = paints[view.index as int];
        &&& view.index < paints.len()
        &&& paint.payload is Image || paint.payload is Video
        &&& view.is_stroke == is_stroke
        &&& view.paint_id == paint.id
        &&& paint.payload is Image ==> view.video is None && view.preview is None
        &&& paint.payload matches ShownPayload::Video { asset, .. } ==> view.video == Some(asset)
            && view.preview is Some
        &&& view.crop is Some <==> crop is Some && crop->0.place.node == node
            && crop->0.place.is_stroke == is_stroke && crop->0.place.index == view.index
        &&& view.crop is Some ==> view.crop->0 == crop->0.tool
    }) by {
        let i = lemma_media_at(paints, end, v);
        assert(crate::design_paint_view::is_media(paints[i]));
    }
    assert forall|v: int, w: int| 0 <= v < w < views.len() implies (#[trigger] views[v]).index < (
    #[trigger] views[w]).index by {
        let i = lemma_media_at(paints, end, v);
        let j = lemma_media_at(paints, end, w);
        assert(crate::design_paint_view::is_media(paints[i]));
        assert(crate::design_paint_view::is_media(paints[j]));
        if j <= i {
            lemma_media_counted(paints, j, i);
        }
    }
    assert forall|i: int|
        #![trigger paints[i]]
        0 <= i < paints.len() && (paints[i].payload is Image
            || paints[i].payload is Video) implies exists|v: int|
        0 <= v < views.len() && (#[trigger] views[v]).index == i by {
        assert(crate::design_paint_view::is_media(paints[i]));
        let v = crate::design_paint_view::media_before(paints, i);
        assert(views[v].index == i);
    }
}

// ---------------------------------------------------------------------------
// Choices and media of the panel
// ---------------------------------------------------------------------------

/// A choice is carried out on the layer and the document that its picker was opened
/// on, and the picker closes; the crop that is applied is the one in the fields,
/// and while a field holds no number the picker stays and nothing is carried out.
pub proof fn lemma_choice_is_taken(
    before: FantaDesignPanel,
    after: FantaDesignPanel,
    choice: Choice,
    fields: Option<CropWindow>,
    r: Option<(NodeId, Choice)>,
)
    requires
        crate::layer_context_menu::taken_choice(before, after, choice, fields, r),
    ensures
        after.open == before.open,
        r matches Some((node, _)) ==> before.context_picker is Some && before.open is Some && node
            == before.context_picker->0.node && before.open->0.doc.id
            == before.context_picker->0.document && after.context_picker is None,
        r matches Some((_, chosen)) ==> (if choice is ApplyCrop {
            fields is Some && chosen == Choice::CropRectangle(fields->0)
        } else {
            chosen == choice
        }),
        before.context_picker is Some && !(choice is ApplyCrop && fields is None)
            ==> after.context_picker is None,
        choice is ApplyCrop && fields is None ==> r is None && after.context_picker
            == before.context_picker,
        before.context_picker matches Some(picker) && (before.open matches Some(open)
            && open.doc.id == picker.document) && !(choice is ApplyCrop && fields is None)
            ==> r is Some,
{
}

/// A video is asked for a layer that shows one, a picture for every other.
pub proof fn lemma_media_asked_for(panel: FantaDesignPanel, id: NodeId)
    requires
        panel.valid(),
    ensures
        ({
            let prompt = crate::layer_context_menu::prompt_for(panel, id);
            &&& prompt is Some <==> panel.open is Some
                && panel.open->0.doc.content().nodes.dom().contains(id)
            &&& prompt matches Some((document, slot)) ==> document == panel.open->0.doc.id && (
            slot is Video <==> *panel.open->0.doc.content().nodes[id].data is Video)
        }),
{
    if let Some(open) = panel.open {
        crate::operations::lemma_find_is_content(open.doc, id);
    }
}

/// Media that are not taken change no document, and all that was stored for them is
/// handed back.
pub proof fn lemma_refused_media_handed_back(
    before: FantaDesignPanel,
    after: FantaDesignPanel,
    expected: DocId,
    id: NodeId,
    media: NewMedia,
    r: Result<(), Vec<AssetId>>,
)
    requires
        crate::layer_context_menu::media_outcome(before, after, expected, id, media, r),
    ensures
        r matches Err(left) ==> after.open == before.open && left@ == media.asset_list()
            && after.notices@.len() == before.notices@.len() + 1,
        r is Ok ==> before.open is Some && before.open->0.editable && before.open->0.doc.id
            == expected && after.notices == before.notices,
        r is Ok <==> before.open is Some && before.open->0.editable
            && crate::layer_media::media_refusal(before.open->0.doc, expected, id, media) is None,
{
    assert(crate::panel::texts_of(after.notices@).len() == after.notices@.len());
    assert(crate::panel::texts_of(before.notices@).len() == before.notices@.len());
}

// ---------------------------------------------------------------------------
// Components and instances
// ---------------------------------------------------------------------------

/// The root of a component is that of its definition; what is no component has none.
pub proof fn lemma_component_has_root(components: Seq<ComponentDef>, id: ComponentId, at: int)
    requires
        0 <= at <= components.len(),
        forall|k: int| 0 <= k < at ==> (#[trigger] components[k]).id != id,
        at < components.len() ==> components[at].id == id,
    ensures
        crate::layer_context_ops::component_root(components, id) == (if at < components.len() {
            Some(components[at].root)
        } else {
            None
        }),
    decreases components.len(),
{
    if components.len() > 0 && at > 0 {
        let rest = components.drop_first();
        assert(components[0].id != id);
        assert forall|k: int| 0 <= k < at - 1 implies (#[trigger] rest[k]).id != id by {
            assert(components[k + 1].id != id);
        }
        lemma_component_has_root(rest, id, at - 1);
    }
}

/// An instance, and nothing else, is expanded; its layout is computed exactly where
/// none has been derived for it.
pub proof fn lemma_instance_expanded(doc: Doc, id: NodeId)
    requires
        doc.well_formed(),
    ensures
        ({
            let plan = crate::instance_text::expansion_plan(doc, id);
            &&& plan is Some <==> doc.content().nodes.dom().contains(id)
                && *doc.content().nodes[id].data is Instance
            &&& plan matches Some(lays_out) ==> (*doc.content().nodes[id].data matches NodeData::Instance(
                instance,
            ) && (lays_out <==> instance.derived@.len() == 0))
        }),
{
    crate::operations::lemma_find_is_content(doc, id);
}

/// The way to a copied layer ends with its own transform, behind the way to the
/// layer above it; the copied root lies where the instance lies.
pub proof fn lemma_way_down(expanded: Seq<ExpandedNode>, at: int)
    requires
        0 <= at < expanded.len(),
    ensures
        ({
            let way = crate::instance_text::transform_chain(expanded, at);
            &&& way.len() == 0 <==> expanded[at].node.parent is None
            &&& expanded[at].node.parent is Some ==> way.last() == expanded[at].node.transform
            &&& forall|above: int|
                0 <= above < at && crate::instance_text::place_above(expanded, at) == Some(above)
                    ==> way.drop_last() == #[trigger] crate::instance_text::transform_chain(
                    expanded,
                    above,
                )
        }),
{
    let way = crate::instance_text::transform_chain(expanded, at);
    if let Some(above) = crate::instance_text::place_above(expanded, at) {
        if 0 <= above < at {
            let low = crate::instance_text::transform_chain(expanded, above);
            assert(way.drop_last() =~= low);
        }
    }
}

} // verus!
