//! Laws: what commands and edits refuse, and what they take.

use vstd::prelude::*;

use crate::design_media::{MediaKind, ScaledCrop, UploadError};
use crate::design_node::VariableName;
use crate::design_paint_view::TurnFacts;
use crate::design_paints::{GradientFacts, QuarterTurn};
use crate::design_session::CropTool;
use crate::design_values::DesignProperty;
use crate::document::{AnimationTrack, CanvasNode, Doc, IndexKey, Transform};
use crate::ids::{NodeId, VariableId};
use crate::instance_text::ExpandedNode;
use crate::layer_components::OutlineFacts;
use crate::layer_errors::LayerError;
use crate::layer_simple::SimpleFacts;
use crate::operations::{Content, Operation};
use crate::pages::{ElementKind, Found};
use crate::paint::{Fill, Gradient, GradientStop, ImageFitMode};
use crate::scalar::Scalar;

verus! {

// ---------------------------------------------------------------------------
// Layers
// ---------------------------------------------------------------------------

/// One layer moves to a page exactly where it may be edited, the page does not stand
/// in it, and the place on the page can be told in finite numbers; it is refused for
/// the first of these that fails.
pub proof fn lemma_move_refused(
    content: Content,
    pages: Seq<NodeId>,
    page: NodeId,
    page_known: bool,
    id: NodeId,
    moved: Seq<Option<Transform>>,
)
    ensures
        ({
            let r = crate::layer_moves::moved_layers(
                content,
                pages,
                page,
                page_known,
                seq![id],
                moved,
            );
            let free = crate::content_walk::may_edit(content.nodes, pages, id);
            let inside = exists|i: int|
                0 <= i < crate::content_walk::above(content.nodes, page).len() && (
                #[trigger] crate::content_walk::above(content.nodes, page)[i]).id == id;
            let told = moved.len() > 0 && moved[0] is Some;
            &&& r is Ok <==> free && !inside && page_known && told && moved[0]->0.finite()
            &&& r == Err::<Seq<Operation>, LayerError>(LayerError::SelectedLocked) <==> !free
            &&& r == Err::<Seq<Operation>, LayerError>(LayerError::IntoDescendant) <==> free
                && inside
            &&& r == Err::<Seq<Operation>, LayerError>(LayerError::NoPageTransform) <==> free
                && !inside && !page_known
            &&& r == Err::<Seq<Operation>, LayerError>(LayerError::NoLayerTransform) <==> free
                && !inside && page_known && !told
            &&& r == Err::<Seq<Operation>, LayerError>(LayerError::SingularPage) <==> free
                && !inside && page_known && told && !moved[0]->0.finite()
        }),
{
    assert(seq![id].drop_first() =~= Seq::<NodeId>::empty());
    reveal_with_fuel(crate::layer_moves::moved_layers, 2);
}

/// A group becomes a component itself; any other layer is put into a frame first, and
/// only where that can be done.
pub proof fn lemma_component_made(doc: Doc, node: CanvasNode, facts: SimpleFacts)
    ensures
        ({
            let r = crate::layer_simple::component_outcome(doc, node, facts);
            &&& *node.data is Group ==> r == Ok::<Seq<Operation>, LayerError>(facts.component@)
            &&& !(*node.data is Group) ==> match facts.framed {
                Err(error) => r == Err::<Seq<Operation>, LayerError>(error),
                Ok(framed) => (r is Ok <==> crate::operations::carried(
                    doc.content(),
                    framed.operations@,
                )) && (r is Ok ==> r->Ok_0 == framed.operations@ + facts.component@),
            }
        }),
{
}

/// Several layers are flattened in a group that is made of them first.
pub proof fn lemma_several_flattened(
    doc: Doc,
    id: NodeId,
    ids: Seq<NodeId>,
    facts: SimpleFacts,
    operations: Seq<Operation>,
)
    requires
        ids.len() > 1,
        crate::layer_simple::flatten_all_outcome(doc, id, ids, facts, Ok(operations)),
    ensures
        facts.grouped matches Ok(grouped) && {
            &&& crate::operations::carried(doc.content(), grouped.operations@)
            &&& operations.len() >= grouped.operations@.len()
            &&& operations.take(grouped.operations@.len() as int) == grouped.operations@
        },
{
    if let Ok(grouped) = facts.grouped {
        let lead = grouped.operations@;
        assert(operations.take(lead.len() as int) =~= lead);
    }
}

/// Strokes can be outlined where there are some: of outlines, combined layers and
/// frames whose size is known. Each refusal says what is missing.
pub proof fn lemma_outline_refused(
    doc: Doc,
    id: NodeId,
    facts: OutlineFacts,
    r: Result<Seq<Operation>, LayerError>,
)
    requires
        doc.well_formed(),
        doc.content().nodes.dom().contains(id),
        !(*doc.content().nodes[id].data is Text),
        crate::layer_components::outline_outcome(doc, id, facts, r),
    ensures
        ({
            let data = *doc.content().nodes[id].data;
            let strokes = crate::layer_laws::strokes_of(data);
            let outlined = data is Vector || data is Group || data is Boolean;
            &&& !outlined ==> r == Err::<Seq<Operation>, LayerError>(LayerError::NoStrokes)
            &&& outlined && strokes.len() == 0 ==> r == Err::<Seq<Operation>, LayerError>(
                LayerError::NothingToOutline,
            )
            &&& r is Ok ==> outlined && strokes.len() > 0
            &&& r is Ok && data is Group ==> facts.local_size is Some
            &&& r is Ok && !(data is Group) ==> facts.outline_error is None
            &&& data is Group && strokes.len() > 0 && facts.local_size is None ==> r == Err::<
                Seq<Operation>,
                LayerError,
            >(LayerError::FrameWithoutBounds)
        }),
{
    crate::operations::lemma_find_is_content(doc, id);
}

/// The tracks that go with a layer are those of the layers below it, in their order,
/// and not its own.
pub proof fn lemma_tracks_inside(
    nodes: Seq<CanvasNode>,
    tracks: Seq<AnimationTrack>,
    last: AnimationTrack,
    id: NodeId,
)
    ensures
        crate::layer_components::inner_tracks(nodes, Seq::empty(), id) == Seq::<
            AnimationTrack,
        >::empty(),
        crate::layer_components::inner_tracks(nodes, tracks.push(last), id) == (if last.node != id
            && crate::scene::is_above(nodes, id, last.node) {
            crate::layer_components::inner_tracks(nodes, tracks, id).push(last)
        } else {
            crate::layer_components::inner_tracks(nodes, tracks, id)
        }),
{
    assert(tracks.push(last).drop_last() =~= tracks);
}

/// Keys that are made one behind the other go up by one, as far as there is room.
pub proof fn lemma_keys_go_up(key: IndexKey, n: nat)
    requires
        key.rank + n <= i64::MAX,
    ensures
        crate::layer_components::key_behind(key, n).rank == key.rank + n,
    decreases n,
{
    if n > 0 {
        lemma_keys_go_up(key, (n - 1) as nat);
    }
}

// ---------------------------------------------------------------------------
// Paints
// ---------------------------------------------------------------------------

/// A gradient is made exactly of two or more stops at finite places along a run that
/// can be told, and it runs along that.
pub proof fn lemma_gradient_refused(
    stops: Seq<GradientStop>,
    facts: GradientFacts,
    r: Option<Gradient>,
)
    requires
        crate::design_paints::gradient_built(stops, facts, r),
    ensures
        r is Some <==> facts.finite && stops.len() >= 2 && facts.geometry is Some && forall|i: int|
            0 <= i < stops.len() ==> (#[trigger] stops[i]).position.finite(),
        r matches Some(gradient) ==> Some(gradient.geometry) == facts.geometry,
{
}

/// The alpha that a gradient shows is that of its strongest stop.
pub proof fn lemma_strongest_stop(stops: Seq<GradientStop>)
    ensures
        ({
            let alpha = crate::design_paint_view::strongest(stops);
            &&& forall|i: int| 0 <= i < stops.len() ==> (#[trigger] stops[i]).color.a <= alpha
            &&& stops.len() > 0 ==> exists|i: int|
                0 <= i < stops.len() && (#[trigger] stops[i]).color.a == alpha
        }),
    decreases stops.len(),
{
    if stops.len() > 0 {
        let rest = stops.drop_last();
        let last = stops.len() - 1;
        let alpha = crate::design_paint_view::strongest(stops);
        lemma_strongest_stop(rest);
        assert forall|i: int| 0 <= i < stops.len() implies (#[trigger] stops[i]).color.a
            <= alpha by {
            if i < last {
                assert(rest[i] == stops[i]);
            }
        }
        assert(rest.len() == 0 ==> crate::design_paint_view::strongest(rest) == 0);
        if stops[last].color.a != alpha {
            let k = choose|k: int|
                0 <= k < rest.len() && (#[trigger] rest[k]).color.a
                    == crate::design_paint_view::strongest(rest);
            assert(stops[k].color.a == alpha);
        }
    }
}

/// The media of a paint can be edited where the paint is a picture or a video, does
/// not stretch it, and turns it by quarters at most.
pub proof fn lemma_media_editable(fill: Fill, turn: TurnFacts)
    ensures
        ({
            let media = crate::design_media::media_in(fill, turn);
            match fill {
                Fill::Image { asset, mode, crop, adjust, .. } => {
                    &&& media is Some <==> !(mode == ImageFitMode::Stretch && crop is None) && (
                    turn.exactly_none || turn.quarter != QuarterTurn::Upright)
                    &&& media matches Some(media) ==> media.kind is Image && media.asset == asset
                        && media.adjust == adjust
                },
                Fill::Video { video, .. } => {
                    &&& media is Some <==> !(video.mode == ImageFitMode::Stretch
                        && video.crop is None) && turn.at_quarter
                    &&& media matches Some(media) ==> media.kind is Video && media.asset
                        == video.asset && media.adjust == video.adjust
                },
                _ => media is None,
            }
        }),
{
}

/// A crop is scaled only by numbers above nought, from a window that stands upright, to
/// a window of a size above nought.
pub proof fn lemma_crop_scaled(
    tool: CropTool,
    zoom: Scalar,
    source_aspect: Scalar,
    scaled: ScaledCrop,
)
    ensures
        ({
            let zero = Scalar::of(crate::scalar::ZERO);
            let window = crate::design_media::crop_window(tool, zoom, source_aspect, scaled);
            &&& window is Some ==> window->0 == scaled.window
            &&& window is Some ==> zero.lt(zoom) && zoom.finite() && zero.lt(source_aspect)
                && source_aspect.finite() && zero.lt(scaled.width) && scaled.width.finite()
                && zero.lt(scaled.height) && scaled.height.finite() && zero.lt(tool.transform.m11)
                && zero.lt(tool.transform.m22)
            &&& window is None ==> !(crate::design_media::scalable(tool, zoom, source_aspect)
                && zero.lt(scaled.width) && scaled.width.finite() && zero.lt(scaled.height)
                && scaled.height.finite())
        }),
{
}

/// A refused upload says first what was uploaded.
pub proof fn lemma_upload_notice(error: UploadError)
    ensures
        crate::design_media::upload_notice_text(MediaKind::Image, error) == "Image fill: "@
            + crate::design_media::upload_words(error),
        crate::design_media::upload_notice_text(MediaKind::Video, error) == "Video fill: "@
            + crate::design_media::upload_words(error),
{
}

// ---------------------------------------------------------------------------
// What is shown
// ---------------------------------------------------------------------------

/// A layer without a box shows neither place nor size, and they cannot be written; one
/// with a box has no such states.
pub proof fn lemma_boxless_states(has_box: bool)
    ensures
        ({
            let states = crate::design_node::boxless(has_box);
            &&& has_box ==> states.len() == 0
            &&& !has_box ==> states.len() == 4 && states[0].property == DesignProperty::X
                && states[1].property == DesignProperty::Y && states[2].property
                == DesignProperty::Width && states[3].property == DesignProperty::Height
            &&& forall|i: int|
                0 <= i < states.len() ==> (#[trigger] states[i]).value is Unset
                    && states[i].read_only is Some
        }),
{
}

/// A variable goes by the first name that is given for it.
pub proof fn lemma_variable_named(names: Seq<VariableName>, id: VariableId, at: int)
    requires
        0 <= at <= names.len(),
        forall|k: int| 0 <= k < at ==> (#[trigger] names[k]).id != id,
        at < names.len() ==> names[at].id == id,
    ensures
        crate::design_node::name_of(names, id) == (if at < names.len() {
            Some(names[at].name)
        } else {
            None
        }),
    decreases names.len(),
{
    if names.len() > 0 && at > 0 {
        let rest = names.skip(1);
        assert(names[0].id != id);
        assert forall|k: int| 0 <= k < at - 1 implies (#[trigger] rest[k]).id != id by {
            assert(names[k + 1].id != id);
        }
        lemma_variable_named(rest, id, at - 1);
    }
}

/// What is found is counted by kind, each once.
pub proof fn lemma_found_counted(found: Seq<Found>, last: Found, kind: ElementKind)
    ensures
        crate::pages::count_of(Seq::empty(), kind) == 0,
        crate::pages::count_of(found.push(last), kind) == crate::pages::count_of(found, kind) + (
        if last.kind == kind {
            1int
        } else {
            0int
        }),
{
    assert(found.push(last).drop_last() =~= found);
}

/// A single layer is titled a section exactly where its metadata say that it is one;
/// what the editor says of it comes before what it was brought in as.
pub proof fn lemma_section_titled(doc: Doc, id: NodeId, node: CanvasNode)
    ensures
        ({
            let title = crate::design_header::title_of(doc, seq![id], node);
            let texts = crate::meta::json_texts(node.meta);
            let own = texts.dom().contains("fanta_kind"@);
            &&& title is Section <==> own && texts["fanta_kind"@] == "section"@ || !own
                && texts.dom().contains("figma_type"@) && texts["figma_type"@] == "SECTION"@
            &&& title is Section || title is Kind
        }),
{
}

/// Layers share the layout around them exactly where it is the same for all of them.
pub proof fn lemma_parent_shared(doc: Doc, ids: Seq<NodeId>, at: int)
    requires
        0 <= at < ids.len(),
    ensures
        ({
            let shared = crate::design_snapshot::shared_parent(doc, ids);
            let own = crate::design_node::parent_layout_of(doc, ids[at]);
            &&& (forall|i: int|
                0 <= i < ids.len() ==> crate::design_node::parent_layout_of(doc, #[trigger] ids[i])
                    == own) ==> shared == own
            &&& !(forall|i: int|
                0 <= i < ids.len() ==> crate::design_node::parent_layout_of(doc, #[trigger] ids[i])
                    == own) ==> shared is Mixed
        }),
{
    let own = crate::design_node::parent_layout_of(doc, ids[at]);
    let first = crate::design_node::parent_layout_of(doc, ids[0]);
    if forall|i: int|
        0 <= i < ids.len() ==> crate::design_node::parent_layout_of(doc, #[trigger] ids[i])
            == first {
        assert(own == first);
    }
}

/// A copied layer stands where it was copied last.
pub proof fn lemma_copy_found(expanded: Seq<ExpandedNode>, id: NodeId)
    ensures
        match crate::instance_text::clone_place(expanded, id) {
            Some(at) => {
                &&& 0 <= at < expanded.len()
                &&& expanded[at].node.id == id
                &&& forall|k: int| at < k < expanded.len() ==> (#[trigger] expanded[k]).node.id != id
            },
            None => forall|k: int|
                0 <= k < expanded.len() ==> (#[trigger] expanded[k]).node.id != id,
        },
    decreases expanded.len(),
{
    if expanded.len() > 0 && expanded.last().node.id != id {
        let rest = expanded.drop_last();
        lemma_copy_found(rest, id);
        let from = match crate::instance_text::clone_place(rest, id) {
            Some(at) => at,
            None => -1,
        };
        assert forall|k: int| from < k < expanded.len() implies (
        #[trigger] expanded[k]).node.id != id by {
            if k < rest.len() {
                assert(rest[k] == expanded[k]);
            }
        }
    }
}

} // verus!
