//! Laws: what the actions of the inspector, the commands of the header and the
//! choices of a picker come to.

use vstd::prelude::*;

use crate::design_actions::{
    ActionEffect, ActionFacts, DesignAction, DirectEdit, PaintDecision, PaintRequest,
    TransformOperation, VideoAction, VideoCommand,
};
use crate::design_header::{HeaderCommand, HeaderEffect, HeaderFacts};
use crate::design_host::HostEdit;
use crate::design_lists::PropInput;
use crate::design_media::MediaKind;
use crate::design_paints::{
    MediaPayload, MediaPlacement, PaintEditValue, PaintPayload, PatternPayload,
};
use crate::design_session::{DesignAdapter, EditPhase};
use crate::design_targets::{AddLayoutFacts, DesignTarget};
use crate::document::{
    ComponentPropDef, ComponentPropKind, Doc, LayoutMode, NodeData, Transform, VarValue,
};
use crate::ids::{AssetId, ComponentPropId, NodeId};
use crate::layer_context_menu::{Choice, ContextEffect, ContextFacts};
use crate::layer_errors::LayerError;
use crate::operations::Operation;
use crate::paint::{BlendMode, Fill, ImageFitMode, VideoFill};
use crate::panel::{DocChange, FantaDesignPanel, LayerEdit, OpenDocument};
use crate::scalar::Scalar;

verus! {

// ---------------------------------------------------------------------------
// Paints
// ---------------------------------------------------------------------------

/// A file is asked for exactly where a picture or a video without a source is
/// committed, and it is one of that kind. Until then the paint is shown as it is.
pub proof fn lemma_upload_decided(
    doc: Option<Doc>,
    id: NodeId,
    payload: PaintPayload,
    unsourced: bool,
    phase: EditPhase,
)
    ensures
        ({
            let decision = crate::design_actions::paint_decision(
                doc,
                id,
                PaintRequest::Payload { payload: payload, unsourced: unsourced },
                phase,
            );
            let asks = phase == EditPhase::Commit && unsourced;
            &&& decision == PaintDecision::Upload(MediaKind::Image) <==> asks && payload is Image
            &&& decision == PaintDecision::Upload(MediaKind::Video) <==> asks && payload is Video
            &&& !asks || !(payload is Image) && !(payload is Video) && !(payload is Pattern)
                ==> decision == PaintDecision::Edit(PaintEditValue::Payload(payload))
            &&& decision is NoPatternSource ==> asks && payload is Pattern
        }),
{
}

/// What is no number is not written into a paint, and a blend mode that documents do
/// not have is said to be unavailable once it is committed. All else that is asked
/// for is written as it is asked for.
pub proof fn lemma_paint_request_decided(
    doc: Option<Doc>,
    id: NodeId,
    request: PaintRequest,
    phase: EditPhase,
)
    ensures
        ({
            let decision = crate::design_actions::paint_decision(doc, id, request, phase);
            match request {
                PaintRequest::Color(color) => decision == PaintDecision::Edit(
                    PaintEditValue::Color(color),
                ),
                PaintRequest::Opacity { percent, .. } => {
                    &&& decision is Ignore <==> !percent.finite()
                    &&& percent.finite() ==> (decision matches PaintDecision::Edit(value) && (
                    value matches PaintEditValue::Opacity { percent: written, .. } && written
                        == percent))
                },
                PaintRequest::BlendMode(mode) => {
                    let stored = crate::design_values::stored_blend(mode);
                    &&& stored matches Some(mode) ==> decision == PaintDecision::Edit(
                        PaintEditValue::BlendMode(mode),
                    )
                    &&& decision is BlendUnavailable <==> stored is None && phase
                        == EditPhase::Commit
                    &&& decision is Ignore <==> stored is None && phase != EditPhase::Commit
                },
                PaintRequest::GradientRun { gradient, facts } => {
                    &&& decision is Ignore <==> !gradient
                    &&& gradient ==> decision == PaintDecision::Edit(
                        PaintEditValue::GradientRun(facts),
                    )
                },
                PaintRequest::GradientStopColor(index, color) => decision == PaintDecision::Edit(
                    PaintEditValue::GradientStopColor(index, color),
                ),
                PaintRequest::GradientStopPosition(index, position) => {
                    &&& decision is Ignore <==> !position.finite()
                    &&& position.finite() ==> decision == PaintDecision::Edit(
                        PaintEditValue::GradientStopPosition(index, position),
                    )
                },
                PaintRequest::GradientStopAdd(position, color) => decision == PaintDecision::Edit(
                    PaintEditValue::GradientStopAdd(position, color),
                ),
                PaintRequest::GradientStopRemove(index) => decision == PaintDecision::Edit(
                    PaintEditValue::GradientStopRemove(index),
                ),
                PaintRequest::Unhandled => decision is Ignore,
                _ => !(decision is Ignore),
            }
        }),
{
}

/// A pattern can be made of outlines and groups, but not of the layer itself nor of
/// what it stands in: of all of them, in the order of the layers, each by its name.
pub proof fn lemma_pattern_candidates(doc: Doc, target: NodeId, ids: Seq<NodeId>, last: NodeId)
    requires
        doc.well_formed(),
    ensures
        crate::design_paints::candidates_among(doc, target, Seq::empty()) == Seq::<
            (NodeId, Seq<char>),
        >::empty(),
        ({
            let rest = crate::design_paints::candidates_among(doc, target, ids);
            let all = crate::design_paints::candidates_among(doc, target, ids.push(last));
            let node = doc.content().nodes[last];
            if last != target && doc.content().nodes.dom().contains(last) && (*node.data is Vector
                || *node.data is Group) && !crate::scene::is_above(doc.nodes@, last, target) {
                all == rest.push((last, node.name@))
            } else {
                all == rest
            }
        }),
{
    crate::operations::lemma_find_is_content(doc, last);
    assert(ids.push(last).drop_last() =~= ids);
}

/// The candidates for a pattern are looked for below the layer at the top, which is
/// the layer itself or stands above it, and has no layer above it in turn.
pub proof fn lemma_top_is_above(doc: Doc, id: NodeId)
    ensures
        ({
            let top = crate::design_paints::top_above(doc.nodes@, id);
            top != id ==> crate::scene::is_above(doc.nodes@, top, id)
        }),
        crate::scene::ancestors(doc.nodes@, id).len() == 0 ==> crate::design_paints::top_above(
            doc.nodes@,
            id,
        ) == id,
        crate::scene::ancestors(doc.nodes@, id).len() > 0 ==> crate::design_paints::top_above(
            doc.nodes@,
            id,
        ) == crate::scene::ancestors(doc.nodes@, id).last().id,
{
    let above = crate::scene::ancestors(doc.nodes@, id);
    if above.len() > 0 {
        assert(above[above.len() - 1].id == above.last().id);
    }
}

/// A file can be asked for where there is a paint; one that is to replace a source
/// only where the paint still shows that source.
pub proof fn lemma_upload_starts(
    doc: Doc,
    id: NodeId,
    is_stroke: bool,
    index: usize,
    kind: MediaKind,
    source: Option<Option<AssetId>>,
)
    ensures
        ({
            let paint = crate::design_paints::layer_paint(doc, id, is_stroke, index);
            let starts = crate::design_media::upload_may_start(
                doc,
                id,
                is_stroke,
                index,
                kind,
                source,
            );
            &&& paint is None ==> !starts
            &&& paint is Some && source is None ==> starts
            &&& source == Some(None::<AssetId>) ==> !starts
            &&& paint is Some && source is Some && source->0 is Some ==> (starts <==> (kind is Image
                && (paint->0 matches Fill::Image { asset, .. } && source->0 == Some(asset)) || kind
                is Video && (paint->0 matches Fill::Video { video, .. } && source->0 == Some(
                video.asset,
            ))))
            &&& crate::design_media::upload_kind_of(doc, id, is_stroke, index) is Video
                <==> paint is Some && paint->0 is Video
        }),
{
}

/// The video of a paint is the one that the paint shows; no other paint has one.
pub proof fn lemma_video_of_paint(doc: Doc, id: NodeId, is_stroke: bool, index: usize)
    ensures
        ({
            let paint = crate::design_paints::layer_paint(doc, id, is_stroke, index);
            let video = crate::design_actions::video_at(Some(doc), id, is_stroke, index);
            &&& video is Some <==> paint is Some && paint->0 is Video
            &&& paint matches Some(Fill::Video { video: shown, .. }) ==> video == Some(shown.asset)
        }),
{
}

/// A video is sought to the second that is asked for, while it is dragged and when it
/// is let go of, where the second is a number and not before the start; otherwise
/// only the next frame is shown.
pub proof fn lemma_video_commanded(action: VideoAction)
    ensures
        ({
            let command = crate::design_actions::video_command_of(action);
            &&& command is Play <==> action is Play
            &&& command is Pause <==> action is Pause
            &&& command matches VideoCommand::Seek(at) ==> at.finite() && !at.lt(
                Scalar::of(crate::scalar::ZERO),
            )
            &&& match action {
                VideoAction::Seek { seconds } => {
                    let sound = seconds.finite() && !seconds.lt(Scalar::of(crate::scalar::ZERO));
                    command == (if sound {
                        VideoCommand::Seek(seconds)
                    } else {
                        VideoCommand::Tick
                    })
                },
                VideoAction::Scrub { seconds, phase } => {
                    let sound = seconds.finite() && !seconds.lt(Scalar::of(crate::scalar::ZERO));
                    command == (if sound && phase != EditPhase::Begin && phase
                        != EditPhase::Cancel {
                        VideoCommand::Seek(seconds)
                    } else {
                        VideoCommand::Tick
                    })
                },
                _ => true,
            }
        }),
{
}

// ---------------------------------------------------------------------------
// Payloads
// ---------------------------------------------------------------------------

/// A paint that is made of media shows the asset, the filters and the placement that
/// were given, as strongly and blended as said. Media without an asset, without
/// filters or with a placement that cannot be kept make none. A video keeps its poster
/// exactly where it stays the same video.
pub proof fn lemma_media_built(
    payload: MediaPayload,
    previous: Option<VideoFill>,
    strength: Scalar,
    mode: BlendMode,
)
    ensures
        ({
            let stored = crate::design_paints::placement_stored(payload.placement, payload.valid);
            let whole = payload.asset is Some && payload.filters is Some && stored is Some;
            let picture = crate::design_paints::image_built(payload, strength, mode);
            let film = crate::design_paints::video_built(payload, previous, strength, mode);
            &&& picture is Some <==> whole
            &&& film is Some <==> whole
            &&& whole ==> (picture->0 matches Fill::Image {
                asset,
                opacity,
                blend,
                adjust,
                mode: fit,
                crop,
                ..
            } && Some(asset) == payload.asset && opacity == strength && blend == mode && Some(
                adjust,
            ) == payload.filters && fit == stored->0.mode && crop == stored->0.crop)
            &&& whole ==> (film->0 matches Fill::Video { video, opacity, blend } && Some(
                video.asset,
            ) == payload.asset && opacity == strength && blend == mode && Some(video.adjust)
                == payload.filters && video.mode == stored->0.mode && video.crop == stored->0.crop
                && (if previous is Some && previous->0.asset == video.asset {
                video.poster == previous->0.poster
            } else {
                video.poster is None
            }))
        }),
{
}

/// Where media fill, fit or tile their layer, the paint says so and holds no crop; a
/// crop that stands upright is kept as the window it shows.
pub proof fn lemma_placement_kept(placement: MediaPlacement)
    ensures
        crate::design_paints::placement_stored(placement, false) is None,
        ({
            let stored = crate::design_paints::placement_stored(placement, true);
            match placement {
                MediaPlacement::Fill { .. } => stored is Some && stored->0.mode
                    == ImageFitMode::Fill && stored->0.crop is None && stored->0.scale is None
                    && stored->0.rotation is Some,
                MediaPlacement::Fit { .. } => stored is Some && stored->0.mode
                    == ImageFitMode::Fit && stored->0.crop is None && stored->0.scale is None
                    && stored->0.rotation is Some,
                MediaPlacement::Tile { scaling_factor, .. } => stored is Some && stored->0.mode
                    == ImageFitMode::Tile && stored->0.crop is None && stored->0.scale == Some(
                    scaling_factor,
                ) && stored->0.rotation is Some,
                MediaPlacement::Crop { transform } => stored matches Some(kept)
                    ==> kept.crop matches Some(window) && window.x == transform.tx && window.y
                    == transform.ty && window.width == transform.m11 && window.height
                    == transform.m22,
            }
        }),
{
}

/// A pattern is taken as it is asked for where its source can be one, its scale is a
/// number above nought and its spacing is of numbers.
pub proof fn lemma_pattern_built(doc: Doc, target: NodeId, payload: PatternPayload)
    requires
        doc.well_formed(),
    ensures
        ({
            let built = crate::design_paints::pattern_built(doc, target, payload);
            &&& built is Some ==> built == payload.source
            &&& built matches Some(pattern) ==> {
                let source = pattern.source_node_id;
                &&& source != target
                &&& doc.content().nodes.dom().contains(source)
                &&& *doc.content().nodes[source].data is Vector
                    || *doc.content().nodes[source].data is Group
                &&& !crate::scene::is_above(doc.nodes@, source, target)
                &&& pattern.scaling_factor.finite() && Scalar::of(crate::scalar::ZERO).lt(
                    pattern.scaling_factor,
                )
                &&& pattern.spacing.x.finite() && pattern.spacing.y.finite()
            }
        }),
{
    if let Some(pattern) = payload.source {
        crate::operations::lemma_find_is_content(doc, pattern.source_node_id);
    }
}

/// A paint of a layer that is no text becomes one of the kind that is asked for,
/// blended as before, or stays as it is.
pub proof fn lemma_payload_lands(
    doc: Doc,
    id: NodeId,
    is_stroke: bool,
    index: usize,
    payload: PaintPayload,
    fraction: Scalar,
    before: Fill,
    operations: Seq<Operation>,
)
    requires
        doc.well_formed(),
        doc.content().nodes.dom().contains(id),
        crate::paint_laws::paint_of(*doc.content().nodes[id].data, is_stroke, index as int) == Some(
            before,
        ),
        crate::design_paints::payload_outcome(
            doc,
            id,
            is_stroke,
            index,
            payload,
            fraction,
            operations,
        ),
    ensures
        operations.len() == 0 || {
            let after = crate::inspector_laws::afterwards(doc, operations).nodes[id];
            let now = crate::paint_laws::paint_of(*after.data, is_stroke, index as int);
            &&& crate::inspector_laws::changes_only(doc, id, operations)
            &&& now is Some
            &&& match payload {
                PaintPayload::Solid(color) => now->0 matches Fill::Solid { color: shown, .. }
                    && shown == color,
                PaintPayload::Gradient { .. } => now->0 is Gradient,
                PaintPayload::Pattern(_) => now->0 is Pattern,
                PaintPayload::Image(_) => now->0 is Image,
                PaintPayload::Video(_) => now->0 is Video,
                PaintPayload::Shader(_) => now->0 is Shader,
            }
        },
{
    crate::operations::lemma_find_is_content(doc, id);
    assert(crate::design_paints::layer_paint(doc, id, is_stroke, index) == Some(before));
    if operations.len() > 0 {
        let fill = choose|fill: Option<Fill>| #[trigger]
            crate::design_paints::payload_fill(doc, id, before, payload, fraction, fill) && (
            match fill {
                Some(fill) => crate::design_paints::repaint_outcome(
                    doc,
                    id,
                    is_stroke,
                    index,
                    fill,
                    operations,
                ),
                None => operations.len() == 0,
            });
        crate::paint_laws::lemma_repainted(doc, id, is_stroke, index, fill->0, operations);
    }
}

/// A choice that is activated without a picker, or with a crop field that holds no
/// number, changes no document. One that copies is about the picker's layer.
pub proof fn lemma_activation(
    before: FantaDesignPanel,
    after: FantaDesignPanel,
    choice: Choice,
    fields: Option<crate::paint::CropWindow>,
    facts: ContextFacts,
    effect: ContextEffect,
)
    requires
        crate::layer_context_menu::activation_outcome(
            before,
            after,
            choice,
            fields,
            facts,
            effect,
        ),
    ensures
        before.context_picker is None ==> after == before && effect == ContextEffect::Done(
            DocChange::Unchanged,
        ),
        choice is ApplyCrop && fields is None ==> after.open == before.open && effect
            == ContextEffect::Done(DocChange::Unchanged),
        choice is CopySvg && before.context_picker is Some && before.open is Some
            && before.open->0.doc.id == before.context_picker->0.document ==> effect == (
        ContextEffect::CopyRendered { node: before.context_picker->0.node, svg: true })
            && after.context_picker is None,
        effect is CopyRendered || effect is CopyStyle ==> after.open == before.open
            && after.context_picker is None,
{
}

// ---------------------------------------------------------------------------
// Properties of components
// ---------------------------------------------------------------------------

/// The value is what the input says for a property of the kind.
pub open spec fn says_value(kind: ComponentPropKind, input: PropInput, value: VarValue) -> bool {
    match value {
        VarValue::Boolean { value } => kind == ComponentPropKind::Bool && input
            == PropInput::Boolean(value),
        VarValue::Float { value } => kind == ComponentPropKind::Number && value.finite() && (
        input matches PropInput::Text { number, .. } && number == Some(value)),
        VarValue::Text { value } => kind == ComponentPropKind::Text && (
        input matches PropInput::Text { text, .. } && text == value),
        VarValue::Color { value } => kind == ComponentPropKind::Color && (
        input matches PropInput::Text { color, .. } && color == Some(value)),
    }
}

/// A property of an instance takes exactly the values of its kind that the input
/// gives, and can be reset; a swapped instance and a variant are not set this way.
pub proof fn lemma_prop_takes_its_kind(
    kind: ComponentPropKind,
    input: PropInput,
    value: VarValue,
)
    ensures
        ({
            let settable = kind != ComponentPropKind::InstanceSwap && kind
                != ComponentPropKind::Variant;
            let r = crate::design_lists::prop_value_of(Some(kind), input);
            &&& r == Some(Some(value)) <==> says_value(kind, input, value)
            &&& r == Some(None::<VarValue>) <==> settable && input is Reset
        }),
        crate::design_lists::prop_value_of(None, input) is None,
{
}

/// The kind of a property is that of its first definition; what is not defined has
/// none.
pub proof fn lemma_prop_kind_defined(
    props: Seq<ComponentPropDef>,
    prop: ComponentPropId,
    at: int,
)
    requires
        0 <= at <= props.len(),
        forall|k: int| 0 <= k < at ==> (#[trigger] props[k]).id != prop,
        at < props.len() ==> props[at].id == prop,
    ensures
        crate::design_lists::kind_in(props, prop) == (if at < props.len() {
            Some(props[at].kind)
        } else {
            None
        }),
    decreases props.len(),
{
    if props.len() > 0 && at > 0 {
        let rest = props.skip(1);
        assert(props[0].id != prop);
        assert forall|k: int| 0 <= k < at - 1 implies (#[trigger] rest[k]).id != prop by {
            assert(props[k + 1].id != prop);
        }
        lemma_prop_kind_defined(rest, prop, at - 1);
    }
}

/// From an instance one gets to the root of its component, where that is still there.
pub proof fn lemma_main_is_the_root(doc: Doc, id: NodeId, root: NodeId)
    requires
        doc.well_formed(),
        crate::design_lists::is_main_root(doc, id, root),
    ensures
        doc.content().nodes.dom().contains(root),
        doc.content().nodes.dom().contains(id),
        *doc.content().nodes[id].data matches NodeData::Instance(instance) && exists|at: int|
            0 <= at < doc.components@.len() && (#[trigger] doc.components@[at]).id
                == instance.component && doc.components@[at].root == root,
{
    crate::operations::lemma_find_is_content(doc, id);
    crate::operations::lemma_find_is_content(doc, root);
    let component = crate::design_lists::instance_component(doc, id)->0;
    let at = choose|at: int| #[trigger]
        crate::design_lists::component_place(doc, component, at) && doc.components@[at].root
            == root;
    assert(doc.components@[at].id == component);
}

// ---------------------------------------------------------------------------
// Targets
// ---------------------------------------------------------------------------

/// An action on layers is meant for what is selected exactly where it names the
/// selected layers, all of them, in their order.
pub proof fn lemma_target_is_selection(panel: FantaDesignPanel, ids: Vec<Option<NodeId>>)
    ensures
        ({
            let found = crate::design_targets::current_target(panel, DesignTarget::Nodes(ids));
            let names = panel.open matches Some(open) && ids@.len() == open.doc.selection@.len()
                && forall|i: int|
                0 <= i < ids@.len() ==> #[trigger] ids@[i] == Some(open.doc.selection@[i]);
            &&& found is Some <==> names
            &&& found matches Some(selected) ==> selected == panel.open->0.doc.selection@
        }),
{
    if let Some(open) = panel.open {
        let known = crate::design_targets::known(open.doc.selection@);
        if ids@.len() == open.doc.selection@.len() && forall|i: int|
            0 <= i < ids@.len() ==> #[trigger] ids@[i] == Some(open.doc.selection@[i]) {
            assert(ids@ =~= known);
        }
        if ids@ == known {
            assert forall|i: int| 0 <= i < ids@.len() implies #[trigger] ids@[i] == Some(
                open.doc.selection@[i],
            ) by {
                assert(known[i] == Some(open.doc.selection@[i]));
            }
        }
    }
}

/// A page is exported only while no layer is selected, and it is the page that is
/// shown.
pub proof fn lemma_page_exported(
    target: DesignTarget,
    doc: Doc,
    root: Option<String>,
    index: Option<usize>,
)
    ensures
        crate::design_targets::meets_export(target, doc, root, index) && target is Page
            ==> doc.selection@.len() == 0,
        target is Page && root is Some && doc.selection@.len() == 0 ==> (
        crate::design_targets::meets_export(target, doc, root, index) <==> target->Page_0@
            == root->0@),
{
}

/// Mirroring writes, for every layer that is there and has a mirrored transform, that
/// transform over the one it has, and nothing else.
pub proof fn lemma_mirrored_one_by_one(
    doc: Doc,
    ids: Seq<NodeId>,
    last: NodeId,
    mirrored: Seq<Option<Transform>>,
)
    requires
        doc.well_formed(),
    ensures
        crate::design_targets::mirrored_list(doc, Seq::empty(), mirrored) == Seq::<
            Operation,
        >::empty(),
        ({
            let rest = crate::design_targets::mirrored_list(doc, ids, mirrored);
            let all = crate::design_targets::mirrored_list(doc, ids.push(last), mirrored);
            let at = ids.len() as int;
            if doc.content().nodes.dom().contains(last) && at < mirrored.len()
                && mirrored[at] is Some {
                all == rest.push(
                    Operation::SetTransform {
                        id: last,
                        old: doc.content().nodes[last].transform,
                        new: mirrored[at]->0,
                    },
                )
            } else {
                all == rest
            }
        }),
{
    crate::operations::lemma_find_is_content(doc, last);
    assert(ids.push(last).drop_last() =~= ids);
}

/// A layout is given to layers that may all be edited. One group gets it itself, and
/// runs in a row then; several layers are put into a new frame first, which is then
/// selected.
pub proof fn lemma_layout_added(
    doc: Doc,
    ids: Seq<NodeId>,
    facts: AddLayoutFacts,
    r: Result<LayerEdit, LayerError>,
)
    requires
        doc.well_formed(),
        crate::design_targets::add_layout_outcome(doc, ids, facts, r),
        r is Ok,
    ensures
        forall|i: int|
            0 <= i < ids.len() ==> crate::layer_context_ops::can_edit(doc, #[trigger] ids[i]),
        r->Ok_0.selection is Some,
        ids.len() != 1 ==> (facts.grouped matches Ok(grouped) && r->Ok_0.selection->0@ == seq![
            grouped.group,
        ] && r->Ok_0.operations@.len() >= grouped.operations@.len()
            && r->Ok_0.operations@.take(grouped.operations@.len() as int)
            == grouped.operations@),
        ids.len() == 1 && doc.content().nodes.dom().contains(ids[0])
            && *doc.content().nodes[ids[0]].data is Group ==> ({
            let after = crate::operations::all_applied(doc.content(), r->Ok_0.operations@);
            *after.nodes[ids[0]].data matches NodeData::Group(now) && (
            now.auto_layout matches Some(layout) && layout.mode == LayoutMode::Horizontal)
        }),
{
    if ids.len() == 1 {
        let id = ids[0];
        crate::operations::lemma_find_is_content(doc, id);
        let built = choose|built: Result<Vec<Operation>, LayerError>| #[trigger]
            crate::layer_context_ops::auto_layout_outcome(
                doc,
                id,
                Some(LayoutMode::Horizontal),
                facts.selection_roots@,
                facts.single,
                built,
            ) && (match built {
                Err(error) => r == Err::<LayerEdit, LayerError>(error),
                Ok(operations) => {
                    let roots = crate::layer_context_ops::root_creations(
                        operations@,
                        operations@,
                    );
                    r matches Ok(edit) && edit.operations == operations && (
                    edit.selection matches Some(selection) && selection@ == (if roots.len() == 0 {
                        seq![id]
                    } else {
                        roots
                    }))
                },
            });
        if doc.content().nodes.dom().contains(id) {
            let data = *doc.content().nodes[id].data;
            if let NodeData::Group(group) = data {
                crate::layer_laws::lemma_layout_command_lands(
                    doc,
                    id,
                    Some(LayoutMode::Horizontal),
                    facts.selection_roots@,
                    facts.single,
                    group,
                    built,
                );
            }
        }
    } else if let Ok(grouped) = facts.grouped {
        let first = grouped.operations@;
        let all = r->Ok_0.operations@;
        assert(all.take(first.len() as int) =~= first);
    }
}

/// Layers are deleted only where all of them may be edited; what refers to them is
/// released first, and the deletions come last, in their order.
pub proof fn lemma_deletions_come_last(
    doc: Doc,
    id: NodeId,
    selection_roots: Seq<NodeId>,
    detached: Seq<Vec<Operation>>,
    deletions: Seq<Operation>,
    operations: Seq<Operation>,
)
    requires
        crate::layer_components::delete_outcome(
            doc,
            id,
            selection_roots,
            detached,
            deletions,
            Ok(operations),
        ),
    ensures
        ({
            let ids = crate::layer_context_ops::target_ids(doc, id, selection_roots);
            let first = operations.len() - deletions.len();
            &&& forall|i: int|
                0 <= i < ids.len() ==> crate::layer_context_ops::can_edit(doc, #[trigger] ids[i])
            &&& first >= 0
            &&& operations.skip(first) == deletions
            &&& crate::operations::carried(doc.content(), operations.take(first))
        }),
{
    let ids = crate::layer_context_ops::target_ids(doc, id, selection_roots);
    let released = choose|released: Seq<Operation>|
        #![trigger crate::layer_components::release_outcome(doc, ids, detached, Ok(released))]
        crate::layer_components::release_outcome(doc, ids, detached, Ok(released)) && Ok::<
            Seq<Operation>,
            LayerError,
        >(operations) == (if crate::operations::carried(doc.content(), released) {
            Ok::<Seq<Operation>, LayerError>(released + deletions)
        } else {
            Err::<Seq<Operation>, LayerError>(LayerError::NotApplied)
        });
    let first = operations.len() - deletions.len();
    assert(operations.skip(first) =~= deletions);
    assert(operations.take(first) =~= released);
}

// ---------------------------------------------------------------------------
// Commands of the header
// ---------------------------------------------------------------------------

/// Selecting matching layers changes the selection alone, and only where there are
/// such layers; a text is opened for editing, any other object has its outline
/// edited, and neither changes the panel.
pub proof fn lemma_header_looks(
    before: FantaDesignPanel,
    after: FantaDesignPanel,
    open: OpenDocument,
    ids: Seq<NodeId>,
    command: HeaderCommand,
    page: Option<NodeId>,
    facts: HeaderFacts,
    effect: HeaderEffect,
)
    requires
        before.open == Some(open),
        open.doc.well_formed(),
        ids.len() > 0,
        crate::design_header::command_effect(
            before,
            after,
            open,
            ids,
            command,
            page,
            facts,
            effect,
        ),
    ensures
        command is SelectMatchingLayers ==> {
            let found = crate::design_header::matching(open.doc, ids[0], page);
            &&& effect == HeaderEffect::Selected(found.len() > 0)
            &&& after.open matches Some(now) && now.doc.nodes == open.doc.nodes && now.history
                == open.history && now.doc.selection@ == (if found.len() > 0 {
                found
            } else {
                open.doc.selection@
            })
        },
        command is EditObject ==> after == before && (effect == HeaderEffect::OpenText(ids[0])
            <==> open.doc.content().nodes.dom().contains(ids[0])
            && *open.doc.content().nodes[ids[0]].data is Text) && (effect is OpenText
            || effect is EditOutline),
        command is Unsupported ==> after == before && effect is Rejected,
{
    crate::operations::lemma_find_is_content(open.doc, ids[0]);
}

/// Combining layers is one step that leaves the combined layer selected; where the
/// host made none, or one that does not hold all the layers, nothing changes.
pub proof fn lemma_header_combines(
    before: FantaDesignPanel,
    after: FantaDesignPanel,
    open: OpenDocument,
    ids: Seq<NodeId>,
    op: crate::document::BooleanOp,
    page: Option<NodeId>,
    facts: HeaderFacts,
    effect: HeaderEffect,
)
    requires
        before.open == Some(open),
        crate::design_header::command_effect(
            before,
            after,
            open,
            ids,
            HeaderCommand::Boolean(op),
            page,
            facts,
            effect,
        ),
    ensures
        effect is BooleanUnavailable || effect == HeaderEffect::Edited(DocChange::Content),
        effect is BooleanUnavailable ==> after == before,
        effect is Edited ==> facts.made is Some && after.open is Some && {
            let made = facts.made->0;
            let now = after.open->0;
            &&& now.doc.selection@ == seq![made.created]
            &&& now.doc.content() == crate::operations::all_applied(
                open.doc.content(),
                made.operations@,
            )
            &&& crate::operations::carried(open.doc.content(), made.operations@)
            &&& crate::content_walk::children_of_content(now.doc.content(), made.created)
                == ids.len()
            &&& made.operations@.len() > 0 ==> crate::panel::steps_of(now.history@).len()
                == crate::panel::steps_of(open.history@).len() + 1
        },
        effect is BooleanUnavailable <== facts.made is None,
{
}

/// A command of the header that edits layers is the layers' own command of that name,
/// on the first of them; a component is made of one layer itself, and of several in a
/// new frame, which is then selected.
pub proof fn lemma_header_edits(
    open: OpenDocument,
    ids: Seq<NodeId>,
    command: HeaderCommand,
    facts: HeaderFacts,
    edit: LayerEdit,
)
    requires
        open.editable,
        crate::design_header::header_built(open, ids, command, facts, Ok(edit)),
    ensures
        edit.selection is Some,
        command is UseAsMask ==> crate::layer_simple::simple_outcome(
            open.doc,
            ids[0],
            crate::layer_context_ops::LayerAction::UseAsMask,
            facts.simple,
            Ok(edit.operations),
        ),
        command is Flatten ==> crate::layer_simple::simple_outcome(
            open.doc,
            ids[0],
            crate::layer_context_ops::LayerAction::Flatten,
            facts.simple,
            Ok(edit.operations),
        ),
        command == HeaderCommand::Title(crate::design_header::TitleItem::Frame)
            ==> crate::layer_simple::simple_outcome(
            open.doc,
            ids[0],
            crate::layer_context_ops::LayerAction::ConvertToFrame,
            facts.simple,
            Ok(edit.operations),
        ),
        command is CreateComponent && ids.len() == 1 ==> edit.operations@.len() > 0
            && crate::layer_simple::simple_outcome(
            open.doc,
            ids[0],
            crate::layer_context_ops::LayerAction::CreateComponent,
            facts.simple,
            Ok(edit.operations),
        ),
        command is CreateComponent && ids.len() != 1 ==> (facts.grouped matches Ok(grouped)
            && edit.selection->0@ == seq![grouped.group] && edit.operations@
            == grouped.operations@ + facts.component@ && facts.component@.len() > 0),
{
}

// ---------------------------------------------------------------------------
// Choices of a picker
// ---------------------------------------------------------------------------

/// Copying changes nothing: the picture is rendered as what was asked for, and the
/// look that is copied is that of the layer as it is, with its document.
pub proof fn lemma_copies_leave_all(
    before: FantaDesignPanel,
    after: FantaDesignPanel,
    open: OpenDocument,
    id: NodeId,
    choice: Choice,
    facts: ContextFacts,
    effect: ContextEffect,
)
    requires
        before.open == Some(open),
        open.doc.well_formed(),
        crate::layer_context_menu::choice_outcome(before, after, id, choice, facts, effect),
    ensures
        choice is CopySvg ==> after == before && effect == (ContextEffect::CopyRendered {
            node: id,
            svg: true,
        }),
        choice is CopyPng ==> after == before && effect == (ContextEffect::CopyRendered {
            node: id,
            svg: false,
        }),
        choice is CopyProperties ==> after == before && (
        if open.doc.content().nodes.dom().contains(id) {
            effect matches ContextEffect::CopyStyle(copied) && copied.document == open.doc.id
                && copied.node == open.doc.content().nodes[id]
        } else {
            !(effect is CopyStyle)
        }),
{
    crate::operations::lemma_find_is_content(open.doc, id);
}

/// A document that is read only is not changed by any choice, and a look is pasted
/// only from a clipboard of the same document.
pub proof fn lemma_choice_refused(
    before: FantaDesignPanel,
    after: FantaDesignPanel,
    open: OpenDocument,
    id: NodeId,
    choice: Choice,
    facts: ContextFacts,
    effect: ContextEffect,
)
    requires
        before.open == Some(open),
        crate::layer_context_menu::choice_outcome(before, after, id, choice, facts, effect),
    ensures
        !open.editable ==> after.open == before.open,
        choice is PasteProperties && !(facts.clipboard matches Some(copied) && copied.document
            == open.doc.id) ==> after.open == before.open && effect == ContextEffect::Done(
            DocChange::Unchanged,
        ),
{
}

/// The fields of a crop start from the crop that a picture shows, which is the whole
/// picture while it shows none: from nought to one both ways.
pub proof fn lemma_crop_fields_start(doc: Doc, id: NodeId)
    requires
        doc.well_formed(),
    ensures
        ({
            let shown = crate::layer_context_menu::shown_crop(doc, id);
            let is_picture = doc.content().nodes.dom().contains(id)
                && *doc.content().nodes[id].data is Bitmap;
            &&& shown is Some <==> is_picture
            &&& is_picture ==> (*doc.content().nodes[id].data matches NodeData::Bitmap(bitmap) && (
            match bitmap.crop {
                Some(crop) => shown == Some(crop),
                None => shown->0.x.bits == crate::scalar::ZERO && shown->0.y.bits
                    == crate::scalar::ZERO && shown->0.width.bits == crate::scalar::ONE
                    && shown->0.height.bits == crate::scalar::ONE,
            }))
        }),
{
    crate::operations::lemma_find_is_content(doc, id);
}

// ---------------------------------------------------------------------------
// Actions
// ---------------------------------------------------------------------------

/// Copying a value and exporting are left to the host where they are meant for what
/// is shown, and change nothing; formatting a stretch of a text is refused when it is
/// committed.
pub proof fn lemma_plain_actions<H: Fn(&Doc, HostEdit) -> Vec<Operation>>(
    before: DesignAdapter,
    after: DesignAdapter,
    panel_before: FantaDesignPanel,
    panel_after: FantaDesignPanel,
    action: DesignAction,
    facts: ActionFacts,
    host: H,
    effect: ActionEffect,
)
    requires
        crate::design_actions::action_outcome(
            before,
            after,
            panel_before,
            panel_after,
            action,
            facts,
            host,
            effect,
        ),
    ensures
        action matches DesignAction::PropertyCopy { target } ==> after == before && panel_after
            == panel_before && effect == (
        if crate::design_targets::current_target(panel_before, target) is Some {
            ActionEffect::Copy
        } else {
            ActionEffect::Nothing
        }),
        action matches DesignAction::ExportAll { target } ==> after == before && panel_after
            == panel_before && (effect is Export <==> panel_before.open is Some
            && crate::design_targets::meets_export(
            target,
            panel_before.open->0.doc,
            facts.page_root,
            facts.page_index,
        )) && (effect is Export || effect is Nothing),
        action is Export ==> effect is Export && after == before && panel_after == panel_before,
        action is Surface ==> effect is Surface && after == before && panel_after == panel_before,
        action is Other ==> effect is Nothing && after == before && panel_after == panel_before,
        action matches DesignAction::TypographyChange { range, .. } ==> (range
            ==> effect is TextRangeUnavailable && after == before && panel_after == panel_before),
        action matches DesignAction::TypographyEdit { range, phase, .. } ==> (range ==> after
            == before && panel_after == panel_before && effect == (if phase == EditPhase::Commit {
            ActionEffect::TextRangeUnavailable
        } else {
            ActionEffect::Nothing
        })),
        action matches DesignAction::FontApply { node, range, local, font } ==> (range || !local
            || node is None || font is None ==> after == before && panel_after == panel_before && (
        effect is ApplyFont <==> range && local && node is Some && font is Some)),
{
}

/// New export settings come last, under a number of their own: a picture at its own
/// size, with no suffix. Removed ones are gone, and changed ones show the change.
/// Settings for what is not shown any more are left alone.
pub proof fn lemma_export_actions<H: Fn(&Doc, HostEdit) -> Vec<Operation>>(
    before: DesignAdapter,
    after: DesignAdapter,
    panel_before: FantaDesignPanel,
    panel_after: FantaDesignPanel,
    action: DesignAction,
    facts: ActionFacts,
    host: H,
    effect: ActionEffect,
)
    requires
        action is ExportAdd || action is ExportRemove || action is ExportChange,
        crate::design_actions::action_outcome(
            before,
            after,
            panel_before,
            panel_after,
            action,
            facts,
            host,
            effect,
        ),
    ensures
        panel_after == panel_before,
        after.session == before.session && after.crop == before.crop && after.fonts_dirty
            == before.fonts_dirty,
        effect is Refresh || effect is Nothing && after == before,
        ({
            let target = match action {
                DesignAction::ExportAdd { target } => target,
                DesignAction::ExportRemove { target, .. } => target,
                DesignAction::ExportChange { target, .. } => target,
                _ => DesignTarget::Page(arbitrary()),
            };
            effect is Refresh <==> panel_before.open is Some && crate::design_targets::meets_export(
                target,
                panel_before.open->0.doc,
                facts.page_root,
                facts.page_index,
            )
        }),
        effect is Refresh && action is ExportAdd ==> {
            let added = after.exports@.last();
            &&& after.exports@ == before.exports@.push(added)
            &&& added.settings.format is Png
            &&& added.settings.sizing matches crate::design_session::ExportSizing::Scale(scale)
                && scale.bits == crate::scalar::ONE
            &&& added.settings.suffix@.len() == 0
            &&& after.next_export_id != before.next_export_id
        },
        effect is Refresh ==> (action matches DesignAction::ExportRemove { configuration, .. }
            ==> forall|i: int|
            0 <= i < after.exports@.len() ==> (#[trigger] after.exports@[i]).id@
                != configuration@),
        effect is Refresh ==> (action matches DesignAction::ExportChange {
            configuration,
            settings,
            phase,
            ..
        } ==> (phase == EditPhase::Commit ==> after.exports@
            == crate::design_session::export_changed(
            before.exports@,
            configuration@,
            settings,
        ) && after.export_snapshot is None)),
{
    if effect is Refresh {
        if action is ExportAdd {
            let added = after.exports@.last();
            assert(after.exports@ =~= after.exports@.drop_last().push(added));
        }
        if let DesignAction::ExportRemove { configuration, .. } = action {
            crate::session_laws::lemma_export_removed(
                before.exports@,
                arbitrary(),
                configuration@,
            );
        }
    }
}

/// Going to the main component selects its root and changes nothing else; without one
/// nothing changes.
pub proof fn lemma_main_is_selected<H: Fn(&Doc, HostEdit) -> Vec<Operation>>(
    before: DesignAdapter,
    after: DesignAdapter,
    panel_before: FantaDesignPanel,
    panel_after: FantaDesignPanel,
    open: OpenDocument,
    id: NodeId,
    facts: ActionFacts,
    host: H,
    effect: ActionEffect,
)
    requires
        panel_before.open == Some(open),
        crate::design_actions::action_outcome(
            before,
            after,
            panel_before,
            panel_after,
            DesignAction::GoToMain { node: Some(id) },
            facts,
            host,
            effect,
        ),
    ensures
        after == before,
        effect == ActionEffect::SelectedMain(true) || effect == ActionEffect::SelectedMain(false)
            && panel_after == panel_before,
        effect == ActionEffect::SelectedMain(true) ==> panel_after.open is Some && {
            let now = panel_after.open->0;
            &&& now.doc.nodes == open.doc.nodes && now.doc.components == open.doc.components
            &&& now.history == open.history
            &&& now.doc.selection@.len() == 1
            &&& crate::design_lists::is_main_root(open.doc, id, now.doc.selection@[0])
        },
        effect == ActionEffect::SelectedMain(false) ==> forall|root: NodeId|
            !#[trigger] crate::design_lists::is_main_root(open.doc, id, root),
{
    if exists|root: NodeId| crate::design_lists::is_main_root(open.doc, id, root) {
        assert(crate::design_actions::command_outcome_of(
            before,
            after,
            panel_before,
            panel_after,
            DesignAction::GoToMain { node: Some(id) },
            facts,
            effect,
        ));
        let root = choose|root: NodeId|
            crate::design_lists::is_main_root(open.doc, id, root);
        let place: (Option<NodeId>, Option<OpenDocument>) = (Some(id), panel_before.open);
        assert(crate::design_lists::is_main_root((place.1->0).doc, place.0->0, root));
        assert(effect == ActionEffect::SelectedMain(true));
    }
}

/// The background that is edited is that of the active page; for any other nothing
/// happens.
pub proof fn lemma_background_of_active_page<H: Fn(&Doc, HostEdit) -> Vec<Operation>>(
    before: DesignAdapter,
    after: DesignAdapter,
    panel_before: FantaDesignPanel,
    panel_after: FantaDesignPanel,
    page: Option<NodeId>,
    color: crate::paint::Color,
    phase: EditPhase,
    facts: ActionFacts,
    host: H,
    effect: ActionEffect,
)
    requires
        crate::design_actions::action_outcome(
            before,
            after,
            panel_before,
            panel_after,
            DesignAction::PageBackground { page: page, color: color, phase: phase },
            facts,
            host,
            effect,
        ),
    ensures
        effect is Phase <==> page is Some && panel_before.open is Some
            && panel_before.open->0.doc.active_page == page,
        !(effect is Phase) ==> effect is Nothing && after == before && panel_after == panel_before,
{
}

/// An edit at once on a layer is the one that the action names, on that layer and in
/// that list; one on the selection is on all selected layers.
pub proof fn lemma_direct_edit_named(
    panel: FantaDesignPanel,
    action: DesignAction,
    facts: ActionFacts,
)
    ensures
        ({
            let edit = crate::design_actions::direct_edit(panel, action, facts);
            match action {
                DesignAction::PaintChange { node, collection, index, color } => {
                    &&& edit is Some <==> node is Some
                    &&& edit matches Some(edit) ==> (edit matches DirectEdit::Color {
                        id,
                        is_stroke,
                        index: at,
                        color: given,
                    } && Some(id) == node && (is_stroke <==> collection is Stroke) && at == index
                        && given == color)
                },
                DesignAction::PaintReorder { node, collection, from, to } => {
                    &&& edit is Some <==> node is Some
                    &&& edit matches Some(edit) ==> match edit {
                        DirectEdit::MoveStroke { id, from: a, to: b, .. } => collection is Stroke
                            && Some(id) == node && a == from && b == to,
                        DirectEdit::MoveFill { id, from: a, to: b } => !(collection is Stroke)
                            && Some(id) == node && a == from && b == to,
                        _ => false,
                    }
                },
                DesignAction::ItemAdd { node, collection } => {
                    &&& edit is Some <==> node is Some && !(collection is Other)
                    &&& edit matches Some(edit) ==> match edit {
                        DirectEdit::AddStroke { id, new } => collection is Stroke && Some(id)
                            == node && new == facts.new_stroke,
                        DirectEdit::Host(HostEdit::AddFill { id }) => collection is Fill
                            && Some(id) == node,
                        _ => false,
                    }
                },
                DesignAction::ItemRemove { node, collection, index } => {
                    &&& edit is Some <==> node is Some && !(collection is Other)
                    &&& edit matches Some(edit) ==> match edit {
                        DirectEdit::RemoveStroke { id, index: at, .. } => collection is Stroke
                            && Some(id) == node && at == index,
                        DirectEdit::Host(HostEdit::RemoveFill { id, index: at }) =>
                            collection is Fill && Some(id) == node && at == index,
                        _ => false,
                    }
                },
                DesignAction::Transform { operation, .. } => edit is Some && match operation {
                    TransformOperation::RotateClockwise { degrees } =>
                        edit->0 matches DirectEdit::Turn { ids, degrees: given } && given
                            == degrees@ && (panel.open matches Some(open) ==> ids
                            == open.doc.selection@),
                    TransformOperation::Flip { mirrored } => edit->0 matches DirectEdit::Flip {
                        ids,
                        mirrored: given,
                    } && given == mirrored && (panel.open matches Some(open) ==> ids
                        == open.doc.selection@),
                },
                DesignAction::FontApply { node, range, local, font } => {
                    &&& edit is Some <==> node is Some && font is Some && local && !range
                    &&& edit matches Some(edit) ==> (edit matches DirectEdit::Font {
                        id,
                        font: given,
                    } && Some(id) == node && Some(given) == font)
                },
                DesignAction::ComponentProp { node, prop, phase, input, .. } => {
                    &&& edit is Some <==> node is Some && prop is Some && (phase is None || phase
                        == Some(EditPhase::Commit))
                    &&& edit matches Some(edit) ==> (edit matches DirectEdit::Prop {
                        id,
                        prop: set,
                        input: given,
                        ..
                    } && Some(id) == node && Some(set) == prop && given == input)
                },
                DesignAction::Detach { node } => {
                    &&& edit is Some <==> node is Some
                    &&& edit matches Some(edit) ==> (edit matches DirectEdit::Host(
                        HostEdit::Detach { id },
                    ) && Some(id) == node)
                },
                DesignAction::EffectAdd { node, kind } => {
                    &&& edit is Some <==> node is Some
                    &&& edit matches Some(edit) ==> (edit matches DirectEdit::AddEffect {
                        id,
                        kind: given,
                        shadow,
                        radius,
                    } && Some(id) == node && given == kind && shadow == facts.new_shadow
                        && radius == facts.new_blur_radius)
                },
                _ => true,
            }
        }),
{
}

/// A layer's paint that is to become a plain color becomes that color, blended as
/// before.
pub proof fn lemma_plain_color_lands(
    doc: Doc,
    id: NodeId,
    is_stroke: bool,
    index: usize,
    color: crate::paint::Color,
    before: Fill,
    operations: Seq<Operation>,
)
    requires
        doc.well_formed(),
        doc.content().nodes.dom().contains(id),
        crate::paint_laws::paint_of(*doc.content().nodes[id].data, is_stroke, index as int) == Some(
            before,
        ),
        crate::design_paints::solid_outcome(doc, id, is_stroke, index, color, operations),
    ensures
        crate::inspector_laws::changes_only(doc, id, operations),
        ({
            let after = crate::inspector_laws::afterwards(doc, operations).nodes[id];
            crate::paint_laws::paint_of(*after.data, is_stroke, index as int) matches Some(
                Fill::Solid { color: shown, .. },
            ) && shown == color
        }),
{
    crate::operations::lemma_find_is_content(doc, id);
    assert(crate::design_paints::layer_paint(doc, id, is_stroke, index) == Some(before));
    crate::paint_laws::lemma_repainted(
        doc,
        id,
        is_stroke,
        index,
        Fill::Solid { color: color, blend: before.blend_of() },
        operations,
    );
}

// ---------------------------------------------------------------------------
// Phases of a gesture
// ---------------------------------------------------------------------------

/// A gesture begins with the layer as it is and is over once it is committed or
/// cancelled. Only a commit adds a step to the history, and at most one; a preview
/// leaves the inspector as it is.
pub proof fn lemma_gesture_phases(
    builds: spec_fn(Doc, Vec<Operation>) -> bool,
    before: DesignAdapter,
    after: DesignAdapter,
    open: OpenDocument,
    now: OpenDocument,
    id: NodeId,
    phase: EditPhase,
    cancel_all: bool,
    ended: Option<bool>,
)
    requires
        open.doc.well_formed(),
        now.doc.well_formed(),
        crate::design_session::phase_outcome(
            builds,
            before,
            after,
            Some(open),
            Some(now),
            id,
            phase,
            cancel_all,
            ended,
        ),
    ensures
        now.editable == open.editable,
        phase != EditPhase::Commit ==> now.history == open.history,
        phase == EditPhase::Commit && open.editable ==> crate::panel::steps_of(now.history@).len()
            <= crate::panel::steps_of(open.history@).len() + 1,
        phase == EditPhase::Commit && !open.editable ==> now.history == open.history,
        phase == EditPhase::Preview ==> after == before && ended is None,
        phase == EditPhase::Begin ==> ended is None,
        phase == EditPhase::Begin && before.session is None && open.editable
            && open.doc.content().nodes.dom().contains(id) ==> after.session is Some && {
            let kept = after.session->0.snapshot;
            let node = open.doc.content().nodes[id];
            &&& after.session->0.node == id
            &&& kept.id == id && kept.transform == node.transform && kept.opacity == node.opacity
            &&& kept.data == node.data && kept.effects == node.effects && kept.blurs == node.blurs
            &&& now.doc.content() == open.doc.content()
        },
        phase == EditPhase::Commit || phase == EditPhase::Cancel ==> after.session is None,
        phase == EditPhase::Cancel ==> ended != Some(true),
        phase == EditPhase::Cancel && before.session is None ==> ended is None
            && now.doc.content() == open.doc.content(),
        phase == EditPhase::Cancel && (before.session matches Some(session) && session.node == id)
            ==> ended == Some(false) && now.doc.content() == crate::design_session::restored(
            open.doc.content(),
            before.session->0.snapshot,
        ),
{
    if phase == EditPhase::Begin && before.session is None {
        crate::operations::lemma_find_is_content(open.doc, id);
        crate::operations::lemma_find_is_content(now.doc, id);
    }
}

/// Operations that leave every transform finite and that can all be carried out are
/// carried out, as one step; where the document is read only nothing is.
pub proof fn lemma_operations_handed_over(
    open: OpenDocument,
    after: Option<OpenDocument>,
    operations: Seq<Operation>,
    applied: bool,
)
    requires
        crate::design_session::ops_outcome(Some(open), after, operations, applied),
    ensures
        !open.editable ==> after == Some(open) && !applied,
        operations.len() == 0 ==> after == Some(open) && !applied,
        open.editable && operations.len() > 0 && (forall|i: int|
            0 <= i < operations.len() ==> ((#[trigger] operations[i]) matches Operation::SetTransform {
                new,
                ..
            } ==> new.finite())) && crate::operations::carried(open.doc.content(), operations)
            ==> applied && after is Some && after->0.doc.content()
            == crate::operations::all_applied(open.doc.content(), operations)
            && crate::panel::steps_of(after->0.history@) == crate::panel::steps_of(
            open.history@,
        ).push((None, operations)),
{
    let kept = crate::design_session::finite_operations(operations);
    if forall|i: int|
        0 <= i < operations.len() ==> ((#[trigger] operations[i]) matches Operation::SetTransform {
            new,
            ..
        } ==> new.finite()) {
        lemma_all_finite(operations);
        if operations.len() == 1 && crate::operations::carried(open.doc.content(), operations) {
            assert(operations.drop_last() =~= Seq::<Operation>::empty());
        }
    }
}

proof fn lemma_all_finite(operations: Seq<Operation>)
    requires
        forall|i: int|
            0 <= i < operations.len() ==> ((#[trigger] operations[i]) matches Operation::SetTransform {
                new,
                ..
            } ==> new.finite()),
    ensures
        crate::design_session::finite_operations(operations) == operations,
    decreases operations.len(),
{
    if operations.len() > 0 {
        let rest = operations.drop_last();
        assert forall|i: int| 0 <= i < rest.len() implies ((
        #[trigger] rest[i]) matches Operation::SetTransform { new, .. } ==> new.finite()) by {
            assert(rest[i] == operations[i]);
        }
        lemma_all_finite(rest);
        assert(crate::design_session::keeps_finite(operations[operations.len() - 1]));
        assert(rest.push(operations.last()) =~= operations);
    }
}

} // verus!
