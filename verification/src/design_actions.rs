//! What the inspector's actions come to: which of them are taken, what they do to
//! the open document, and what is left for the host.

use vstd::prelude::*;
use vstd::string::*;

use crate::design_data::{DataEdit, StyleEdit, TextEdit};
use crate::design_edits::{build_turn, offer_arranged, offer_property, offer_targeted};
use crate::design_effects::{
    effect_edit_operations, effect_ref, EffectKind, EffectProperty, EffectRef, EffectValue,
};
use crate::design_header::{HeaderCommand, HeaderEffect, HeaderFacts};
use crate::design_host::HostEdit;
use crate::design_layout_view::font_apply_operations;
use crate::design_lists::{
    component_prop_value, current_prop_kind, detached_prop, effect_add_operations,
    effect_remove_operations, fill_move_operations, main_component_root,
    page_background_operations, stroke_list_operations, ListEdit, PropInput,
};
use crate::design_media::{upload_kind, upload_starts, CropAction, CropEffect, CropFacts, MediaKind};
use crate::design_paint_view::{name_paint, CropPlace};
use crate::design_paints::{
    current_paint, paint_edit_operations, pattern_source_candidates, solid_paint_color_operations,
    GradientFacts, PaintEditValue, PaintOutcome, PaintPayload, PatternPayload,
};
use crate::design_properties::PropertyFacts;
use crate::design_session::{DesignAdapter, EditPhase, ExportSettings};
use crate::design_shaders::ShaderPayload;
use crate::design_targets::{
    copy_ids, export_target_matches, flip_operations, target_matches_selection, AddLayoutFacts,
    ArrangeOperation, CenterSpans, DesignTarget, TargetFacts,
};
use crate::design_values::{engine_blend_mode, DesignBlendMode, DesignProperty, DesignValue};
use crate::document::{Doc, Shadow, Transform};
use crate::ids::{AssetId, ComponentId, ComponentPropId, NodeId};
use crate::operations::Operation;
use crate::paint::{Color, Fill, PatternFill, Stroke};
use crate::panel::{DocChange, FantaDesignPanel, OpenDocument};
use crate::scalar::Scalar;
use crate::text::same_text;

verus! {

// ---------------------------------------------------------------------------
// Edits of a paint
// ---------------------------------------------------------------------------

/// The lists of a layer that the inspector edits.
#[derive(Clone, Copy, Debug, PartialEq, Eq, Structural)]
pub enum Collection {
    Fill,
    Stroke,
    Other,
}

/// Whether a collection of paints is that of the strokes.
pub open spec fn strokes_of(collection: Collection) -> Option<bool> {
    match collection {
        Collection::Fill => Some(false),
        Collection::Stroke => Some(true),
        Collection::Other => None,
    }
}

fn stroke_collection(collection: Collection) -> (r: Option<bool>)
    ensures
        r == strokes_of(collection),
{
    match collection {
        Collection::Fill => Some(false),
        Collection::Stroke => Some(true),
        Collection::Other => None,
    }
}

/// An edit of a paint as the panel asks for it.
#[derive(Debug, PartialEq)]
pub enum PaintRequest {
    Color(Color),
    Opacity { percent: Scalar, alpha: u8, scaled: Vec<u8> },
    BlendMode(DesignBlendMode),
    /// `unsourced` says that a picture, a video or a pattern names no source.
    Payload { payload: PaintPayload, unsourced: bool },
    /// Another kind or run of a gradient; `gradient` says that the kind is one.
    GradientRun { gradient: bool, facts: GradientFacts },
    GradientStopColor(usize, Color),
    GradientStopPosition(usize, Scalar),
    GradientStopAdd(Scalar, Color),
    GradientStopRemove(usize),
    ModelEdit(Option<PaintPayload>),
    Unhandled,
}

#[derive(Debug, PartialEq)]
pub enum PaintDecision {
    Ignore,
    /// Ask for a file.
    Upload(MediaKind),
    /// Say that the blend mode is not available.
    BlendUnavailable,
    /// Say that there is nothing to make a pattern of.
    NoPatternSource,
    Edit(PaintEditValue),
}

/// The first layer that can be the source of a pattern.
pub open spec fn first_source(doc: Doc, id: NodeId) -> Option<NodeId> {
    let candidates = crate::design_paints::candidates_among(
        doc,
        id,
        crate::scene::descendants(doc.nodes@, crate::design_paints::top_above(doc.nodes@, id)),
    );
    if candidates.len() > 0 {
        Some(candidates[0].0)
    } else {
        None
    }
}

fn find_source(doc: &Doc, id: NodeId) -> (source: Option<NodeId>)
    ensures
        source == first_source(*doc, id),
{
    let candidates = pattern_source_candidates(doc, id);
    assert(crate::design_paints::shown_candidates(candidates@).len() == candidates@.len());
    if candidates.len() > 0 {
        assert(crate::design_paints::shown_candidates(candidates@)[0].0 == candidates@[0].node);
        Some(candidates[0].node)
    } else {
        None
    }
}

/// What an edit with a payload comes to. On commit, media without a source asks
/// for a file, and a pattern without one takes the first layer that can be one.
pub open spec fn payload_decision(
    doc: Option<Doc>,
    id: NodeId,
    payload: PaintPayload,
    unsourced: bool,
    phase: EditPhase,
) -> PaintDecision {
    if phase == EditPhase::Commit && unsourced {
        match payload {
            PaintPayload::Image(_) => PaintDecision::Upload(MediaKind::Image),
            PaintPayload::Video(_) => PaintDecision::Upload(MediaKind::Video),
            PaintPayload::Pattern(pattern) => match (doc, pattern.source) {
                (Some(doc), Some(fill)) => match first_source(doc, id) {
                    Some(source) => PaintDecision::Edit(
                        PaintEditValue::Payload(
                            PaintPayload::Pattern(
                                PatternPayload {
                                    source: Some(PatternFill { source_node_id: source, ..fill }),
                                },
                            ),
                        ),
                    ),
                    None => PaintDecision::NoPatternSource,
                },
                _ => PaintDecision::NoPatternSource,
            },
            _ => PaintDecision::Edit(PaintEditValue::Payload(payload)),
        }
    } else {
        PaintDecision::Edit(PaintEditValue::Payload(payload))
    }
}

/// What an edit of a paint comes to.
pub open spec fn paint_decision(
    doc: Option<Doc>,
    id: NodeId,
    request: PaintRequest,
    phase: EditPhase,
) -> PaintDecision {
    match request {
        PaintRequest::Color(color) => PaintDecision::Edit(PaintEditValue::Color(color)),
        PaintRequest::Opacity { percent, alpha, scaled } => if percent.finite() {
            PaintDecision::Edit(
                PaintEditValue::Opacity { percent: percent, alpha: alpha, scaled: scaled },
            )
        } else {
            PaintDecision::Ignore
        },
        PaintRequest::BlendMode(mode) => match crate::design_values::stored_blend(mode) {
            Some(mode) => PaintDecision::Edit(PaintEditValue::BlendMode(mode)),
            None => if phase == EditPhase::Commit {
                PaintDecision::BlendUnavailable
            } else {
                PaintDecision::Ignore
            },
        },
        PaintRequest::Payload { payload, unsourced } => payload_decision(
            doc,
            id,
            payload,
            unsourced,
            phase,
        ),
        PaintRequest::GradientRun { gradient, facts } => if gradient {
            PaintDecision::Edit(PaintEditValue::GradientRun(facts))
        } else {
            PaintDecision::Ignore
        },
        PaintRequest::GradientStopColor(index, color) => PaintDecision::Edit(
            PaintEditValue::GradientStopColor(index, color),
        ),
        PaintRequest::GradientStopPosition(index, position) => if position.finite() {
            PaintDecision::Edit(PaintEditValue::GradientStopPosition(index, position))
        } else {
            PaintDecision::Ignore
        },
        PaintRequest::GradientStopAdd(position, color) => PaintDecision::Edit(
            PaintEditValue::GradientStopAdd(position, color),
        ),
        PaintRequest::GradientStopRemove(index) => PaintDecision::Edit(
            PaintEditValue::GradientStopRemove(index),
        ),
        PaintRequest::ModelEdit(payload) => PaintDecision::Edit(
            PaintEditValue::ModelEdit(payload),
        ),
        PaintRequest::Unhandled => PaintDecision::Ignore,
    }
}

/// The document of an open one.
pub open spec fn doc_of(open: Option<OpenDocument>) -> Option<Doc> {
    match open {
        Some(open) => Some(open.doc),
        None => None,
    }
}

fn decide_payload(
    open: &Option<OpenDocument>,
    id: NodeId,
    payload: PaintPayload,
    unsourced: bool,
    phase: EditPhase,
) -> (decision: PaintDecision)
    ensures
        decision == payload_decision(doc_of(*open), id, payload, unsourced, phase),
{
    if phase != EditPhase::Commit || !unsourced {
        return PaintDecision::Edit(PaintEditValue::Payload(payload));
    }
    match payload {
        PaintPayload::Image(_) => PaintDecision::Upload(MediaKind::Image),
        PaintPayload::Video(_) => PaintDecision::Upload(MediaKind::Video),
        PaintPayload::Pattern(pattern) => match (open, pattern.source) {
            (Some(open), Some(fill)) => match find_source(&open.doc, id) {
                Some(source) => PaintDecision::Edit(
                    PaintEditValue::Payload(
                        PaintPayload::Pattern(
                            PatternPayload {
                                source: Some(PatternFill { source_node_id: source, ..fill }),
                            },
                        ),
                    ),
                ),
                None => PaintDecision::NoPatternSource,
            },
            _ => PaintDecision::NoPatternSource,
        },
        other => PaintDecision::Edit(PaintEditValue::Payload(other)),
    }
}

/// Decides what an edit of a paint comes to.
pub fn decide_paint_edit(
    open: &Option<OpenDocument>,
    id: NodeId,
    request: PaintRequest,
    phase: EditPhase,
) -> (decision: PaintDecision)
    ensures
        decision == paint_decision(doc_of(*open), id, request, phase),
{
    match request {
        PaintRequest::Color(color) => PaintDecision::Edit(PaintEditValue::Color(color)),
        PaintRequest::Opacity { percent, alpha, scaled } => if percent.is_finite() {
            PaintDecision::Edit(PaintEditValue::Opacity { percent, alpha, scaled })
        } else {
            PaintDecision::Ignore
        },
        PaintRequest::BlendMode(mode) => match engine_blend_mode(mode) {
            Some(mode) => PaintDecision::Edit(PaintEditValue::BlendMode(mode)),
            None => if phase == EditPhase::Commit {
                PaintDecision::BlendUnavailable
            } else {
                PaintDecision::Ignore
            },
        },
        PaintRequest::Payload { payload, unsourced } => decide_payload(
            open,
            id,
            payload,
            unsourced,
            phase,
        ),
        PaintRequest::GradientRun { gradient, facts } => if gradient {
            PaintDecision::Edit(PaintEditValue::GradientRun(facts))
        } else {
            PaintDecision::Ignore
        },
        PaintRequest::GradientStopColor(index, color) => PaintDecision::Edit(
            PaintEditValue::GradientStopColor(index, color),
        ),
        PaintRequest::GradientStopPosition(index, position) => if position.is_finite() {
            PaintDecision::Edit(PaintEditValue::GradientStopPosition(index, position))
        } else {
            PaintDecision::Ignore
        },
        PaintRequest::GradientStopAdd(position, color) => PaintDecision::Edit(
            PaintEditValue::GradientStopAdd(position, color),
        ),
        PaintRequest::GradientStopRemove(index) => PaintDecision::Edit(
            PaintEditValue::GradientStopRemove(index),
        ),
        PaintRequest::ModelEdit(payload) => PaintDecision::Edit(
            PaintEditValue::ModelEdit(payload),
        ),
        PaintRequest::Unhandled => PaintDecision::Ignore,
    }
}

/// What an edit of a paint may build: its operations, or those that the host
/// makes of the opacity field.
pub open spec fn paint_builds<H: Fn(&Doc, HostEdit) -> Vec<Operation>>(
    place: CropPlace,
    value: PaintEditValue,
    fraction: Scalar,
    host: H,
    seen: Doc,
    operations: Vec<Operation>,
) -> bool {
    exists|outcome: PaintOutcome| #[trigger]
        crate::design_paints::paint_edit_outcome(
            seen,
            place.node,
            place.is_stroke,
            place.index,
            value,
            fraction,
            outcome,
        ) && (match outcome {
            PaintOutcome::Operations(built) => operations == built,
            PaintOutcome::OpacityField { percent } => host.ensures(
                (&seen, HostEdit::PaintOpacity { place: place, percent: percent }),
                operations,
            ),
        })
}

pub open spec fn paint_builder<H: Fn(&Doc, HostEdit) -> Vec<Operation>>(
    place: CropPlace,
    value: PaintEditValue,
    fraction: Scalar,
    host: H,
) -> spec_fn(Doc, Vec<Operation>) -> bool {
    |seen: Doc, operations: Vec<Operation>|
        paint_builds(place, value, fraction, host, seen, operations)
}

fn build_paint<H: Fn(&Doc, HostEdit) -> Vec<Operation>>(
    place: CropPlace,
    value: PaintEditValue,
    fraction: Scalar,
    host: H,
    doc: &Doc,
) -> (operations: Vec<Operation>)
    requires
        forall|edit: HostEdit| #[trigger] host.requires((doc, edit)),
    ensures
        paint_builds(place, value, fraction, host, *doc, operations),
{
    let outcome = paint_edit_operations(
        doc,
        place.node,
        place.is_stroke,
        place.index,
        &value,
        fraction,
    );
    assert(crate::design_paints::paint_edit_outcome(
        *doc,
        place.node,
        place.is_stroke,
        place.index,
        value,
        fraction,
        outcome,
    ));
    match outcome {
        PaintOutcome::Operations(operations) => operations,
        PaintOutcome::OpacityField { percent } => host(
            doc,
            HostEdit::PaintOpacity { place, percent },
        ),
    }
}

/// What an edit of an effect may build; one that is not wired builds nothing.
pub open spec fn effect_builds(
    id: NodeId,
    reference: EffectRef,
    property: EffectProperty,
    value: EffectValue,
    shadow: Shadow,
    seen: Doc,
    operations: Vec<Operation>,
) -> bool {
    exists|built: Option<Vec<Operation>>| #[trigger]
        crate::design_effects::effect_edit_outcome(
            seen,
            id,
            reference,
            property,
            value,
            shadow,
            built,
        ) && (match built {
            Some(built) => operations == built,
            None => operations@.len() == 0,
        })
}

pub open spec fn effect_builder(
    id: NodeId,
    reference: EffectRef,
    property: EffectProperty,
    value: EffectValue,
    shadow: Shadow,
) -> spec_fn(Doc, Vec<Operation>) -> bool {
    |seen: Doc, operations: Vec<Operation>|
        effect_builds(id, reference, property, value, shadow, seen, operations)
}

pub open spec fn background_builder(root: NodeId, color: Color) -> spec_fn(
    Doc,
    Vec<Operation>,
) -> bool {
    |seen: Doc, operations: Vec<Operation>|
        crate::design_lists::background_outcome(seen, root, color, operations@)
}

impl DesignAdapter {
    /// One phase of an edit of a paint. `host` makes the operations for the
    /// opacity of a paint that is written through its field.
    pub fn edit_paint<H: Fn(&Doc, HostEdit) -> Vec<Operation>>(
        &mut self,
        open: &mut Option<OpenDocument>,
        place: CropPlace,
        value: PaintEditValue,
        fraction: Scalar,
        phase: EditPhase,
        host: H,
    ) -> (ended: Option<bool>)
        requires
            crate::design_session::in_order(*old(open)),
            forall|doc: &Doc, edit: HostEdit|
                doc.well_formed() ==> #[trigger] host.requires((doc, edit)),
        ensures
            crate::design_session::in_order(*final(open)),
            crate::design_session::phase_outcome(
                paint_builder(place, value, fraction, host),
                *old(self),
                *final(self),
                *old(open),
                *final(open),
                place.node,
                phase,
                false,
                ended,
            ),
    {
        let ghost before = *self;
        let ghost open_before = *open;
        let build = |doc: &Doc| -> (operations: Vec<Operation>)
            requires
                doc.well_formed(),
            ensures
                paint_builds(place, value, fraction, host, *doc, operations),
            { build_paint(place, value, fraction, host, doc) };
        let ended = self.phased_edit(open, place.node, phase, false, build);
        proof {
            crate::design_session::lemma_phase_follows(
                crate::design_session::builds_of(build),
                paint_builder(place, value, fraction, host),
                before,
                *self,
                open_before,
                *open,
                place.node,
                phase,
                false,
                ended,
            );
        }
        ended
    }

    /// One phase of an edit of an effect. Cancelling gives up all that is under
    /// way.
    pub fn edit_effect(
        &mut self,
        open: &mut Option<OpenDocument>,
        id: NodeId,
        reference: EffectRef,
        property: EffectProperty,
        value: EffectValue,
        shadow: Shadow,
        phase: EditPhase,
    ) -> (ended: Option<bool>)
        requires
            crate::design_session::in_order(*old(open)),
        ensures
            crate::design_session::in_order(*final(open)),
            crate::design_session::phase_outcome(
                effect_builder(id, reference, property, value, shadow),
                *old(self),
                *final(self),
                *old(open),
                *final(open),
                id,
                phase,
                true,
                ended,
            ),
    {
        let ghost before = *self;
        let ghost open_before = *open;
        let build = |doc: &Doc| -> (operations: Vec<Operation>)
            ensures
                effect_builds(id, reference, property, value, shadow, *doc, operations),
            { build_effect(id, reference, property, value, shadow, doc) };
        let ended = self.phased_edit(open, id, phase, true, build);
        proof {
            crate::design_session::lemma_phase_follows(
                crate::design_session::builds_of(build),
                effect_builder(id, reference, property, value, shadow),
                before,
                *self,
                open_before,
                *open,
                id,
                phase,
                true,
                ended,
            );
        }
        ended
    }

    /// One phase of an edit of the background of the page that is shown; of
    /// another page nothing is edited. Cancelling gives up all that is under way.
    pub fn edit_page_background(
        &mut self,
        open: &mut Option<OpenDocument>,
        root: NodeId,
        color: Color,
        phase: EditPhase,
    ) -> (ended: Option<bool>)
        requires
            crate::design_session::in_order(*old(open)),
        ensures
            crate::design_session::in_order(*final(open)),
            if *old(open) matches Some(document) && document.doc.active_page == Some(root) {
                crate::design_session::phase_outcome(
                    background_builder(root, color),
                    *old(self),
                    *final(self),
                    *old(open),
                    *final(open),
                    root,
                    phase,
                    true,
                    ended,
                )
            } else {
                *final(self) == *old(self) && *final(open) == *old(open) && ended is None
            },
    {
        let shown = match &*open {
            Some(document) => match document.doc.active_page {
                Some(page) => page == root,
                None => false,
            },
            None => false,
        };
        if !shown {
            return None;
        }
        let ghost before = *self;
        let ghost open_before = *open;
        let build = |doc: &Doc| -> (operations: Vec<Operation>)
            ensures
                crate::design_lists::background_outcome(*doc, root, color, operations@),
            { page_background_operations(doc, root, color) };
        let ended = self.phased_edit(open, root, phase, true, build);
        proof {
            crate::design_session::lemma_phase_follows(
                crate::design_session::builds_of(build),
                background_builder(root, color),
                before,
                *self,
                open_before,
                *open,
                root,
                phase,
                true,
                ended,
            );
        }
        ended
    }
}

fn build_effect(
    id: NodeId,
    reference: EffectRef,
    property: EffectProperty,
    value: EffectValue,
    shadow: Shadow,
    doc: &Doc,
) -> (operations: Vec<Operation>)
    ensures
        effect_builds(id, reference, property, value, shadow, *doc, operations),
{
    let built = effect_edit_operations(doc, id, reference, property, value, shadow);
    assert(crate::design_effects::effect_edit_outcome(
        *doc,
        id,
        reference,
        property,
        value,
        shadow,
        built,
    ));
    match built {
        Some(operations) => operations,
        None => Vec::new(),
    }
}

// ---------------------------------------------------------------------------
// Videos
// ---------------------------------------------------------------------------

#[derive(Clone, Copy, Debug, PartialEq, Eq, Structural)]
pub enum VideoAction {
    Play,
    Pause,
    Seek { seconds: Scalar },
    Scrub { seconds: Scalar, phase: EditPhase },
}

/// What the player of a preview is told.
#[derive(Clone, Copy, Debug, PartialEq, Eq, Structural)]
pub enum VideoCommand {
    Play,
    Pause,
    Seek(Scalar),
    /// Nothing but to show the next frame.
    Tick,
}

/// A preview is moved while it is scrubbed and when that ends, to a time that can
/// be.
pub open spec fn video_command_of(action: VideoAction) -> VideoCommand {
    match action {
        VideoAction::Play => VideoCommand::Play,
        VideoAction::Pause => VideoCommand::Pause,
        VideoAction::Seek { seconds } => seek_of(seconds),
        VideoAction::Scrub { seconds, phase } => if phase == EditPhase::Preview || phase
            == EditPhase::Commit {
            seek_of(seconds)
        } else {
            VideoCommand::Tick
        },
    }
}

pub open spec fn seek_of(seconds: Scalar) -> VideoCommand {
    if seconds.finite() && Scalar::of(crate::scalar::ZERO).le(seconds) {
        VideoCommand::Seek(seconds)
    } else {
        VideoCommand::Tick
    }
}

fn seek_to(seconds: Scalar) -> (command: VideoCommand)
    ensures
        command == seek_of(seconds),
{
    if seconds.is_finite() && Scalar::of(crate::scalar::ZERO).at_most(seconds) {
        VideoCommand::Seek(seconds)
    } else {
        VideoCommand::Tick
    }
}

pub fn video_command(action: VideoAction) -> (command: VideoCommand)
    ensures
        command == video_command_of(action),
{
    match action {
        VideoAction::Play => VideoCommand::Play,
        VideoAction::Pause => VideoCommand::Pause,
        VideoAction::Seek { seconds } => seek_to(seconds),
        VideoAction::Scrub { seconds, phase } => if phase == EditPhase::Preview || phase
            == EditPhase::Commit {
            seek_to(seconds)
        } else {
            VideoCommand::Tick
        },
    }
}

/// The video of a paint.
pub open spec fn video_at(doc: Option<Doc>, id: NodeId, is_stroke: bool, index: usize) -> Option<
    AssetId,
> {
    match doc {
        Some(doc) => match crate::design_paints::layer_paint(doc, id, is_stroke, index) {
            Some(Fill::Video { video, .. }) => Some(video.asset),
            _ => None,
        },
        None => None,
    }
}

fn find_video(open: &Option<OpenDocument>, id: NodeId, is_stroke: bool, index: usize) -> (asset:
    Option<AssetId>)
    ensures
        asset == video_at(doc_of(*open), id, is_stroke, index),
{
    match open {
        Some(open) => match current_paint(&open.doc, id, is_stroke, index) {
            Some(Fill::Video { video, .. }) => Some(video.asset),
            _ => None,
        },
        None => None,
    }
}

// ---------------------------------------------------------------------------
// Actions
// ---------------------------------------------------------------------------

/// What a command for all selected layers carries.
#[derive(Debug, PartialEq)]
pub enum TargetedLeaf {
    PropertyChange { property: DesignProperty, value: DesignValue, facts: TargetFacts },
    PropertyEdit {
        property: DesignProperty,
        value: DesignValue,
        facts: TargetFacts,
        phase: EditPhase,
    },
    /// An edit of a paint or an effect.
    Phased { phase: EditPhase },
    Other,
}

/// A turn or a mirroring of the selected layers, with what the host computes for
/// it.
#[derive(Debug, PartialEq)]
pub enum TransformOperation {
    /// For every layer that shows a rotation, the one that is a quarter further.
    RotateClockwise { degrees: Vec<Option<Scalar>> },
    /// Every layer's transform after that, and nothing at all where no layer has
    /// a box.
    Flip { mirrored: Option<Vec<Option<Transform>>> },
}

/// A font of the catalog that can be applied.
#[derive(Debug, PartialEq)]
pub struct FontChoice {
    pub family: String,
    pub italic: bool,
    pub weight: Option<u16>,
}

/// The actions of the inspector. An id of a layer is missing where it stands for
/// none.
#[derive(Debug, PartialEq)]
pub enum DesignAction {
    ExportAdd { target: DesignTarget },
    ExportRemove { target: DesignTarget, configuration: String },
    ExportChange {
        target: DesignTarget,
        configuration: String,
        settings: ExportSettings,
        phase: EditPhase,
    },
    ExportAll { target: DesignTarget },
    Export,
    PropertyChange {
        node: Option<NodeId>,
        property: DesignProperty,
        value: DesignValue,
        facts: PropertyFacts,
    },
    PropertyEdit {
        node: Option<NodeId>,
        property: DesignProperty,
        value: DesignValue,
        facts: PropertyFacts,
        phase: EditPhase,
    },
    PropertyCopy { target: DesignTarget },
    Targeted { target: DesignTarget, leaf: TargetedLeaf },
    Header {
        target: DesignTarget,
        command: HeaderCommand,
        page: Option<NodeId>,
        facts: HeaderFacts,
    },
    AddAutoLayout { target: DesignTarget, facts: AddLayoutFacts },
    Arrange { target: DesignTarget, operation: ArrangeOperation, spans: Option<CenterSpans> },
    Transform { target: DesignTarget, operation: TransformOperation },
    PaintEdit {
        node: Option<NodeId>,
        collection: Collection,
        index: usize,
        request: PaintRequest,
        fraction: Scalar,
        phase: EditPhase,
    },
    MediaSource {
        node: Option<NodeId>,
        collection: Collection,
        index: usize,
        upload: bool,
        source: Option<AssetId>,
    },
    MediaDrop {
        node: Option<NodeId>,
        collection: Collection,
        index: usize,
        kind: MediaKind,
        source: Option<AssetId>,
    },
    MediaCrop {
        node: Option<NodeId>,
        collection: Collection,
        index: usize,
        action: CropAction,
        facts: CropFacts,
    },
    VideoPreview {
        node: Option<NodeId>,
        node_text: String,
        collection: Collection,
        paint_id: String,
        index: usize,
        action: VideoAction,
    },
    ShaderApply {
        node: Option<NodeId>,
        collection: Collection,
        index: usize,
        shader: Option<ShaderPayload>,
        fraction: Scalar,
    },
    PaintChange { node: Option<NodeId>, collection: Collection, index: usize, color: Color },
    PaintReorder { node: Option<NodeId>, collection: Collection, from: usize, to: usize },
    ItemAdd { node: Option<NodeId>, collection: Collection },
    ItemRemove { node: Option<NodeId>, collection: Collection, index: usize },
    EffectAdd { node: Option<NodeId>, kind: EffectKind },
    EffectRemove { node: Option<NodeId>, effect: String },
    EffectEdit {
        node: Option<NodeId>,
        effect: String,
        property: EffectProperty,
        value: EffectValue,
        phase: EditPhase,
    },
    TypographyChange {
        node: Option<NodeId>,
        range: bool,
        property: DesignProperty,
        value: DesignValue,
        facts: PropertyFacts,
    },
    TypographyEdit {
        node: Option<NodeId>,
        range: bool,
        property: DesignProperty,
        value: DesignValue,
        facts: PropertyFacts,
        phase: EditPhase,
    },
    /// The font is missing where the catalog has none that can be applied.
    FontApply { node: Option<NodeId>, range: bool, local: bool, font: Option<FontChoice> },
    /// A missing phase is a change at once. `resolved` is the component that the
    /// host finds to define the instance.
    ComponentProp {
        node: Option<NodeId>,
        prop: Option<ComponentPropId>,
        resolved: Option<ComponentId>,
        input: PropInput,
        phase: Option<EditPhase>,
    },
    Detach { node: Option<NodeId> },
    GoToMain { node: Option<NodeId> },
    PageBackground { page: Option<NodeId>, color: Color, phase: EditPhase },
    VariableDetach { node: Option<NodeId>, property: DesignProperty },
    Surface,
    Other,
}

/// What the host says for actions.
#[derive(Debug, PartialEq)]
pub struct ActionFacts {
    /// The id of the root of the page that is shown.
    pub page_root: Option<String>,
    pub page_index: Option<usize>,
    /// What new strokes, shadows and blurs come with.
    pub new_stroke: Stroke,
    pub new_shadow: Shadow,
    pub new_blur_radius: Scalar,
    /// Videos play on this system.
    pub plays_video: bool,
}

/// What is left for the host.
#[derive(Debug, PartialEq)]
pub enum ActionEffect {
    Nothing,
    /// Show the document anew.
    Refresh,
    Export,
    /// Put the shown value on the clipboard.
    Copy,
    /// Say that the control is not wired.
    Unwired,
    /// A gesture is over; as for a phase, and say that the control is not wired.
    UnwiredPhase(Option<bool>),
    /// Say that the layers cannot be tidied up.
    TidyUnavailable,
    /// What a command of the header leaves.
    Header(HeaderEffect),
    /// A layout was asked for; whether the document changed.
    Layout(DocChange),
    /// Say that selected text cannot be formatted here.
    TextRangeUnavailable,
    BlendUnavailable,
    NoPatternSource,
    Upload { node: NodeId, is_stroke: bool, index: usize, kind: MediaKind },
    /// What a step of cropping leaves.
    Crop(CropEffect),
    Video { asset: AssetId, command: VideoCommand },
    /// Say that videos do not play here.
    VideoUnavailable,
    /// An edit was handed over at once; whether it was carried out.
    Applied(bool),
    /// A phase of a gesture is over; where the gesture ended, whether its edit was
    /// carried out.
    Phase(Option<bool>),
    /// Give the selected text a font.
    ApplyFont { node: NodeId, font: FontChoice },
    /// Whether another layer was selected.
    SelectedMain(bool),
    Surface,
}

/// Operations that an action builds at once.
pub ghost enum DirectEdit {
    Color { id: NodeId, is_stroke: bool, index: usize, color: Color },
    MoveStroke { id: NodeId, from: usize, to: usize, new: Stroke },
    MoveFill { id: NodeId, from: usize, to: usize },
    AddStroke { id: NodeId, new: Stroke },
    RemoveStroke { id: NodeId, index: usize, new: Stroke },
    AddEffect { id: NodeId, kind: EffectKind, shadow: Shadow, radius: Scalar },
    RemoveEffect { id: NodeId, reference: EffectRef },
    Turn { ids: Seq<NodeId>, degrees: Seq<Option<Scalar>> },
    Flip { ids: Seq<NodeId>, mirrored: Option<Vec<Option<Transform>>> },
    Font { id: NodeId, font: FontChoice },
    Prop { id: NodeId, prop: ComponentPropId, resolved: Option<ComponentId>, input: PropInput },
    /// An edit that the host makes the operations of.
    Host(HostEdit),
}

/// The operations that give the property of an instance a value; none where the
/// input is no value for its kind.
pub open spec fn prop_builds<H: Fn(&Doc, HostEdit) -> Vec<Operation>>(
    host: H,
    id: NodeId,
    prop: ComponentPropId,
    resolved: Option<ComponentId>,
    input: PropInput,
    seen: Doc,
    operations: Vec<Operation>,
) -> bool {
    exists|kind: Option<crate::document::ComponentPropKind>| #[trigger]
        crate::design_lists::has_prop_kind(seen, id, resolved, prop, kind) && (
        match crate::design_lists::prop_value_of(kind, input) {
            Some(value) => host.ensures(
                (&seen, HostEdit::SetProp { id: id, prop: prop, value: value }),
                operations,
            ),
            None => operations@.len() == 0,
        })
}

fn build_prop<H: Fn(&Doc, HostEdit) -> Vec<Operation>>(
    host: &H,
    id: NodeId,
    prop: ComponentPropId,
    resolved: Option<ComponentId>,
    input: &PropInput,
    doc: &Doc,
) -> (operations: Vec<Operation>)
    requires
        forall|edit: HostEdit| #[trigger] host.requires((doc, edit)),
    ensures
        prop_builds(*host, id, prop, resolved, *input, *doc, operations),
{
    let kind = current_prop_kind(doc, id, resolved, prop);
    assert(crate::design_lists::has_prop_kind(*doc, id, resolved, prop, kind));
    match component_prop_value(kind, input) {
        Some(value) => (*host)(doc, HostEdit::SetProp { id, prop, value }),
        None => Vec::new(),
    }
}

/// The operations that give a text and all its parts a font.
pub open spec fn font_builds(
    id: NodeId,
    font: FontChoice,
    seen: Doc,
    operations: Seq<Operation>,
) -> bool {
    exists|name: String| #[trigger]
        crate::design_data::edits_data(
            operations,
            seen,
            id,
            DataEdit::Text(
                TextEdit::Style(
                    StyleEdit::Font { family: name, italic: font.italic, weight: font.weight },
                ),
            ),
        ) && name@ == font.family@
}

pub open spec fn direct_builds<H: Fn(&Doc, HostEdit) -> Vec<Operation>>(
    edit: DirectEdit,
    host: H,
    seen: Doc,
    operations: Vec<Operation>,
) -> bool {
    match edit {
        DirectEdit::Turn { ids, degrees } => crate::design_host::all_realized(
            host,
            seen,
            crate::design_edits::turns(crate::design_targets::turned(ids, degrees)),
            operations@,
        ),
        DirectEdit::Flip { ids, mirrored } => operations@ == (match mirrored {
            Some(mirrored) => crate::design_targets::mirrored_list(seen, ids, mirrored@),
            None => Seq::empty(),
        }),
        DirectEdit::Font { id, font } => font_builds(id, font, seen, operations@),
        DirectEdit::Prop { id, prop, resolved, input } => prop_builds(
            host,
            id,
            prop,
            resolved,
            input,
            seen,
            operations,
        ),
        DirectEdit::Host(edit) => host.ensures((&seen, edit), operations),
        DirectEdit::Color { id, is_stroke, index, color } => crate::design_paints::solid_outcome(
            seen,
            id,
            is_stroke,
            index,
            color,
            operations@,
        ),
        DirectEdit::MoveStroke { id, from, to, new } => crate::design_lists::stroke_list_outcome(
            seen,
            id,
            ListEdit::Move { from: from, to: to },
            new,
            operations@,
        ),
        DirectEdit::MoveFill { id, from, to } => crate::design_lists::fill_move_outcome(
            seen,
            id,
            from,
            to,
            operations@,
        ),
        DirectEdit::AddStroke { id, new } => crate::design_lists::stroke_list_outcome(
            seen,
            id,
            ListEdit::Append,
            new,
            operations@,
        ),
        DirectEdit::RemoveStroke { id, index, new } => crate::design_lists::stroke_list_outcome(
            seen,
            id,
            ListEdit::Remove { index: index },
            new,
            operations@,
        ),
        DirectEdit::AddEffect { id, kind, shadow, radius } =>
            crate::design_lists::effect_add_outcome(seen, id, kind, shadow, radius, operations@),
        DirectEdit::RemoveEffect { id, reference } => crate::design_lists::effect_remove_outcome(
            seen,
            id,
            reference,
            operations@,
        ),
    }
}

pub open spec fn direct_builder<H: Fn(&Doc, HostEdit) -> Vec<Operation>>(
    edit: DirectEdit,
    host: H,
) -> spec_fn(Doc, Vec<Operation>) -> bool {
    |seen: Doc, operations: Vec<Operation>| direct_builds(edit, host, seen, operations)
}

/// Operations that an action builds at once and that may be refused.
pub ghost enum OfferedEdit {
    Property { id: NodeId, property: DesignProperty, value: DesignValue, facts: PropertyFacts },
    Targeted {
        ids: Seq<NodeId>,
        property: DesignProperty,
        value: DesignValue,
        facts: TargetFacts,
    },
    Arrange { count: nat, operation: ArrangeOperation, spans: Option<CenterSpans> },
}

pub open spec fn offered_builds<H: Fn(&Doc, HostEdit) -> Vec<Operation>>(
    edit: OfferedEdit,
    host: H,
    seen: Doc,
    offered: Option<Vec<Operation>>,
) -> bool {
    match edit {
        OfferedEdit::Property { id, property, value, facts } =>
            crate::design_edits::property_offered(host, id, property, value, facts, seen, offered),
        OfferedEdit::Targeted { ids, property, value, facts } =>
            crate::design_edits::targeted_offered(host, ids, property, value, facts, seen, offered),
        OfferedEdit::Arrange { count, operation, spans } => crate::design_targets::arranged(
            seen,
            crate::design_targets::arrange_plan_of(operation, count, spans),
            host,
            offered,
        ),
    }
}

pub open spec fn offered_builder<H: Fn(&Doc, HostEdit) -> Vec<Operation>>(
    edit: OfferedEdit,
    host: H,
) -> spec_fn(Doc, Option<Vec<Operation>>) -> bool {
    |seen: Doc, offered: Option<Vec<Operation>>| offered_builds(edit, host, seen, offered)
}

/// What a refused edit is answered.
pub open spec fn refused_with(edit: OfferedEdit) -> ActionEffect {
    if edit is Arrange {
        ActionEffect::TidyUnavailable
    } else {
        ActionEffect::Unwired
    }
}

/// All that is under way is given up and the edit is carried out at once. It is
/// refused exactly where the document may be edited and the edit offers nothing on
/// it.
pub open spec fn offered_at_once(
    does: spec_fn(Doc, Option<Vec<Operation>>) -> bool,
    refusal: ActionEffect,
    before: DesignAdapter,
    after: DesignAdapter,
    panel_before: FantaDesignPanel,
    panel_after: FantaDesignPanel,
    effect: ActionEffect,
) -> bool {
    let refused = effect == refusal;
    &&& crate::design_edits::same_but_open(panel_before, panel_after)
    &&& crate::design_session::gave_up(before, after)
    &&& refused ==> crate::design_session::may_be_edited(panel_before.open)
    &&& !refused ==> effect is Applied
    &&& crate::design_session::commit_outcome(
        crate::design_session::offer_builder(does, Some(!refused)),
        crate::design_session::any_snapshot(before.session),
        panel_before.open,
        panel_after.open,
        effect == ActionEffect::Applied(true),
    )
}

/// A phase of an edit of a property. A committed edit is not wired exactly where
/// the document may be edited and the edit offers nothing on it.
pub open spec fn property_phase<H: Fn(&Doc, HostEdit) -> Vec<Operation>>(
    host: H,
    before: DesignAdapter,
    after: DesignAdapter,
    panel_before: FantaDesignPanel,
    panel_after: FantaDesignPanel,
    id: NodeId,
    property: DesignProperty,
    value: DesignValue,
    facts: PropertyFacts,
    phase: EditPhase,
    effect: ActionEffect,
) -> bool {
    let unwired = effect is UnwiredPhase;
    let ended = match effect {
        ActionEffect::UnwiredPhase(ended) => ended,
        ActionEffect::Phase(ended) => ended,
        _ => None,
    };
    &&& effect is UnwiredPhase || effect is Phase
    &&& crate::design_edits::same_but_open(panel_before, panel_after)
    &&& unwired ==> phase == EditPhase::Commit && crate::design_session::may_be_edited(
        panel_before.open,
    )
    &&& crate::design_session::phase_outcome(
        crate::design_session::offer_builder(
            crate::design_edits::property_offers(host, id, property, value, facts),
            crate::design_session::wired_at(phase, unwired),
        ),
        before,
        after,
        panel_before.open,
        panel_after.open,
        id,
        phase,
        false,
        ended,
    )
}

/// What is under way is given up before a file is asked for; the paint is looked
/// at as it then is.
pub open spec fn upload_asked(
    before: DesignAdapter,
    after: DesignAdapter,
    panel_before: FantaDesignPanel,
    panel_after: FantaDesignPanel,
    place: CropPlace,
    kind: MediaKind,
    source: Option<Option<AssetId>>,
    effect: ActionEffect,
) -> bool {
    &&& crate::design_edits::settled(before, after, panel_before, panel_after)
    &&& effect == (match panel_after.open {
        Some(open) => uploading(open, place.node, place.is_stroke, place.index, kind, source),
        None => ActionEffect::Nothing,
    })
}

/// All that is under way is given up and the edit is carried out at once.
pub open spec fn done_at_once(
    does: spec_fn(Doc, Vec<Operation>) -> bool,
    before: DesignAdapter,
    after: DesignAdapter,
    panel_before: FantaDesignPanel,
    panel_after: FantaDesignPanel,
    effect: ActionEffect,
) -> bool {
    &&& crate::design_edits::same_but_open(panel_before, panel_after)
    &&& crate::design_session::gave_up(before, after)
    &&& effect matches ActionEffect::Applied(applied)
    &&& crate::design_session::commit_outcome(
        does,
        crate::design_session::any_snapshot(before.session),
        panel_before.open,
        panel_after.open,
        applied,
    )
}

/// The target of an export is current.
pub open spec fn export_current(
    panel: FantaDesignPanel,
    target: DesignTarget,
    facts: ActionFacts,
) -> bool {
    panel.open matches Some(open) && crate::design_targets::meets_export(
        target,
        open.doc,
        facts.page_root,
        facts.page_index,
    )
}

/// The target of a command is what is selected.
pub open spec fn selection_current(panel: FantaDesignPanel, target: DesignTarget) -> bool {
    panel.open matches Some(open) && crate::design_targets::meets_selection(
        target,
        open.doc.selection@,
    )
}

/// The video that a preview is meant for, and what its player is told; none where
/// the paint is another one now.
pub open spec fn video_asked(panel: FantaDesignPanel, action: DesignAction) -> Option<
    (AssetId, VideoCommand),
> {
    match action {
        DesignAction::VideoPreview { node, node_text, collection, paint_id, index, action } =>
            match (node, strokes_of(collection)) {
                (Some(node), Some(is_stroke)) => if paint_id@
                    == crate::design_paint_view::paint_id(node_text@, is_stroke, index) {
                    match video_at(doc_of(panel.open), node, is_stroke, index) {
                        Some(asset) => Some((asset, video_command_of(action))),
                        None => None,
                    }
                } else {
                    None
                },
                _ => None,
            },
        _ => None,
    }
}

fn find_asked(panel: &FantaDesignPanel, action: &DesignAction) -> (r: Option<
    (AssetId, VideoCommand),
>)
    ensures
        r == video_asked(*panel, *action),
{
    match action {
        DesignAction::VideoPreview { node, node_text, collection, paint_id, index, action } =>
            match (*node, stroke_collection(*collection)) {
                (Some(node), Some(is_stroke)) => {
                    let name = name_paint(node_text.as_str(), is_stroke, *index);
                    if !same_text(paint_id.as_str(), name.as_str()) {
                        return None;
                    }
                    match find_video(&panel.open, node, is_stroke, *index) {
                        Some(asset) => Some((asset, video_command(*action))),
                        None => None,
                    }
                },
                _ => None,
            },
        _ => None,
    }
}

/// A value that many actions give back without changing anything.
pub open spec fn plain_effect(
    panel: FantaDesignPanel,
    action: DesignAction,
    facts: ActionFacts,
) -> Option<ActionEffect> {
    match action {
        DesignAction::ExportAll { target } => Some(
            if export_current(panel, target, facts) {
                ActionEffect::Export
            } else {
                ActionEffect::Nothing
            },
        ),
        DesignAction::Export => Some(ActionEffect::Export),
        DesignAction::PropertyCopy { target } => Some(
            if selection_current(panel, target) {
                ActionEffect::Copy
            } else {
                ActionEffect::Nothing
            },
        ),
        DesignAction::Targeted { target, leaf } => if !selection_current(panel, target) {
            Some(ActionEffect::Nothing)
        } else {
            match leaf {
                TargetedLeaf::PropertyChange { .. } => None,
                TargetedLeaf::PropertyEdit { phase, .. } => if phase == EditPhase::Commit {
                    None
                } else {
                    Some(ActionEffect::Nothing)
                },
                TargetedLeaf::Phased { phase } => Some(
                    if phase == EditPhase::Commit {
                        ActionEffect::Unwired
                    } else {
                        ActionEffect::Nothing
                    },
                ),
                TargetedLeaf::Other => Some(ActionEffect::Unwired),
            }
        },
        DesignAction::Arrange { target, .. } => if selection_current(panel, target) {
            None
        } else {
            Some(ActionEffect::Nothing)
        },
        DesignAction::Transform { target, .. } => if selection_current(panel, target) {
            None
        } else {
            Some(ActionEffect::Nothing)
        },
        DesignAction::VideoPreview { .. } => match video_asked(panel, action) {
            Some(_) => if facts.plays_video {
                None
            } else {
                Some(ActionEffect::VideoUnavailable)
            },
            None => Some(ActionEffect::Nothing),
        },
        DesignAction::TypographyChange { range, .. } => if range {
            Some(ActionEffect::TextRangeUnavailable)
        } else {
            None
        },
        DesignAction::TypographyEdit { range, phase, .. } => if range {
            Some(
                if phase == EditPhase::Commit {
                    ActionEffect::TextRangeUnavailable
                } else {
                    ActionEffect::Nothing
                },
            )
        } else {
            None
        },
        DesignAction::Surface => Some(ActionEffect::Surface),
        DesignAction::Other => Some(ActionEffect::Nothing),
        _ => None,
    }
}

/// A file is asked for where the upload may start.
pub open spec fn uploading(
    open: OpenDocument,
    node: NodeId,
    is_stroke: bool,
    index: usize,
    kind: MediaKind,
    source: Option<Option<AssetId>>,
) -> ActionEffect {
    if crate::design_media::upload_may_start(open.doc, node, is_stroke, index, kind, source) {
        ActionEffect::Upload { node: node, is_stroke: is_stroke, index: index, kind: kind }
    } else {
        ActionEffect::Nothing
    }
}

/// The layers that are selected.
pub open spec fn selected_ids(panel: FantaDesignPanel) -> Seq<NodeId> {
    match panel.open {
        Some(open) => open.doc.selection@,
        None => Seq::empty(),
    }
}

/// The edit that an action carries out at once and that may be refused.
pub open spec fn offered_edit(panel: FantaDesignPanel, action: DesignAction) -> Option<
    OfferedEdit,
> {
    match action {
        DesignAction::PropertyChange { node, property, value, facts } => match node {
            Some(node) => Some(
                OfferedEdit::Property { id: node, property: property, value: value, facts: facts },
            ),
            None => None,
        },
        DesignAction::TypographyChange { node, property, value, facts, .. } => match node {
            Some(node) => Some(
                OfferedEdit::Property { id: node, property: property, value: value, facts: facts },
            ),
            None => None,
        },
        DesignAction::Targeted { leaf, .. } => match leaf {
            TargetedLeaf::PropertyChange { property, value, facts } => Some(
                OfferedEdit::Targeted {
                    ids: selected_ids(panel),
                    property: property,
                    value: value,
                    facts: facts,
                },
            ),
            TargetedLeaf::PropertyEdit { property, value, facts, .. } => Some(
                OfferedEdit::Targeted {
                    ids: selected_ids(panel),
                    property: property,
                    value: value,
                    facts: facts,
                },
            ),
            _ => None,
        },
        DesignAction::Arrange { operation, spans, .. } => Some(
            OfferedEdit::Arrange {
                count: selected_ids(panel).len(),
                operation: operation,
                spans: spans,
            },
        ),
        _ => None,
    }
}

/// The edit that an action carries out at once.
pub open spec fn direct_edit(
    panel: FantaDesignPanel,
    action: DesignAction,
    facts: ActionFacts,
) -> Option<DirectEdit> {
    match action {
        DesignAction::PaintChange { node, collection, index, color } => match node {
            Some(node) => Some(
                DirectEdit::Color {
                    id: node,
                    is_stroke: collection == Collection::Stroke,
                    index: index,
                    color: color,
                },
            ),
            None => None,
        },
        DesignAction::PaintReorder { node, collection, from, to } => match node {
            Some(node) => Some(
                if collection == Collection::Stroke {
                    DirectEdit::MoveStroke { id: node, from: from, to: to, new: facts.new_stroke }
                } else {
                    DirectEdit::MoveFill { id: node, from: from, to: to }
                },
            ),
            None => None,
        },
        DesignAction::ItemAdd { node, collection } => match node {
            Some(node) => match collection {
                Collection::Stroke => Some(
                    DirectEdit::AddStroke { id: node, new: facts.new_stroke },
                ),
                Collection::Fill => Some(DirectEdit::Host(HostEdit::AddFill { id: node })),
                Collection::Other => None,
            },
            None => None,
        },
        DesignAction::ItemRemove { node, collection, index } => match node {
            Some(node) => match collection {
                Collection::Stroke => Some(
                    DirectEdit::RemoveStroke { id: node, index: index, new: facts.new_stroke },
                ),
                Collection::Fill => Some(
                    DirectEdit::Host(HostEdit::RemoveFill { id: node, index: index }),
                ),
                Collection::Other => None,
            },
            None => None,
        },
        DesignAction::Transform { operation, .. } => Some(
            match operation {
                TransformOperation::RotateClockwise { degrees } => DirectEdit::Turn {
                    ids: selected_ids(panel),
                    degrees: degrees@,
                },
                TransformOperation::Flip { mirrored } => DirectEdit::Flip {
                    ids: selected_ids(panel),
                    mirrored: mirrored,
                },
            },
        ),
        DesignAction::FontApply { node, range, local, font } => match (node, font) {
            (Some(node), Some(font)) => if local && !range {
                Some(DirectEdit::Font { id: node, font: font })
            } else {
                None
            },
            _ => None,
        },
        DesignAction::ComponentProp { node, prop, resolved, input, phase } => match (node, prop) {
            (Some(node), Some(prop)) => if phase matches Some(phase) ==> phase
                == EditPhase::Commit {
                Some(
                    DirectEdit::Prop { id: node, prop: prop, resolved: resolved, input: input },
                )
            } else {
                None
            },
            _ => None,
        },
        DesignAction::Detach { node } => match node {
            Some(node) => Some(DirectEdit::Host(HostEdit::Detach { id: node })),
            None => None,
        },
        DesignAction::VariableDetach { node, property } => match (
            node,
            crate::design_lists::bound_prop_of(property),
        ) {
            (Some(node), Some(prop)) => Some(
                DirectEdit::Host(HostEdit::Unbind { id: node, prop: prop }),
            ),
            _ => None,
        },
        DesignAction::EffectAdd { node, kind } => match node {
            Some(node) => Some(
                DirectEdit::AddEffect {
                    id: node,
                    kind: kind,
                    shadow: facts.new_shadow,
                    radius: facts.new_blur_radius,
                },
            ),
            None => None,
        },
        DesignAction::EffectRemove { node, effect } => match (
            node,
            crate::design_effects::effect_named(effect@),
        ) {
            (Some(node), Some(reference)) => Some(
                DirectEdit::RemoveEffect { id: node, reference: reference },
            ),
            _ => None,
        },
        _ => None,
    }
}

/// What an action that carries an edit out at once gives back where there is none
/// to carry out: selected text gets its font from the host.
pub open spec fn undirected_effect(action: DesignAction) -> ActionEffect {
    match action {
        DesignAction::FontApply { node, range, local, font } => match (node, font) {
            (Some(node), Some(font)) => if local && range {
                ActionEffect::ApplyFont { node: node, font: font }
            } else {
                ActionEffect::Nothing
            },
            _ => ActionEffect::Nothing,
        },
        _ => ActionEffect::Nothing,
    }
}

/// What an edit of a paint does.
pub open spec fn paint_action_outcome<H: Fn(&Doc, HostEdit) -> Vec<Operation>>(
    before: DesignAdapter,
    after: DesignAdapter,
    panel_before: FantaDesignPanel,
    panel_after: FantaDesignPanel,
    place: CropPlace,
    request: PaintRequest,
    fraction: Scalar,
    phase: EditPhase,
    host: H,
    effect: ActionEffect,
) -> bool {
    let unchanged = after == before && panel_after == panel_before;
    match paint_decision(doc_of(panel_before.open), place.node, request, phase) {
        PaintDecision::Ignore => unchanged && effect == ActionEffect::Nothing,
        PaintDecision::Upload(kind) => upload_asked(
            before,
            after,
            panel_before,
            panel_after,
            place,
            kind,
            None,
            effect,
        ),
        PaintDecision::BlendUnavailable => unchanged && effect == ActionEffect::BlendUnavailable,
        PaintDecision::NoPatternSource => unchanged && effect == ActionEffect::NoPatternSource,
        PaintDecision::Edit(value) => {
            &&& crate::design_edits::same_but_open(panel_before, panel_after)
            &&& effect matches ActionEffect::Phase(ended)
            &&& crate::design_session::phase_outcome(
                paint_builder(place, value, fraction, host),
                before,
                after,
                panel_before.open,
                panel_after.open,
                place.node,
                phase,
                false,
                ended,
            )
        },
    }
}

/// Actions of a gesture.
pub open spec fn is_gesture(action: DesignAction) -> bool {
    action is PaintEdit || action is ShaderApply || action is EffectEdit || action is PropertyEdit
        || action is TypographyEdit || action is MediaCrop || action is PageBackground
}

/// Actions that are carried out neither in a gesture nor by operations alone.
pub open spec fn is_command(action: DesignAction) -> bool {
    action is ExportAdd || action is ExportRemove || action is ExportChange || action is Header
        || action is AddAutoLayout || action is MediaSource || action is MediaDrop
        || action is GoToMain || action is VideoPreview
}

/// What a phase of a gesture does.
pub open spec fn gesture_outcome<H: Fn(&Doc, HostEdit) -> Vec<Operation>>(
    before: DesignAdapter,
    after: DesignAdapter,
    panel_before: FantaDesignPanel,
    panel_after: FantaDesignPanel,
    action: DesignAction,
    facts: ActionFacts,
    host: H,
    effect: ActionEffect,
) -> bool {
    let unchanged = after == before && panel_after == panel_before;
    let nothing = unchanged && effect == ActionEffect::Nothing;
    match action {
        DesignAction::PaintEdit { node, collection, index, request, fraction, phase } =>
            match (node, strokes_of(collection)) {
                (Some(node), Some(is_stroke)) => paint_action_outcome(
                    before,
                    after,
                    panel_before,
                    panel_after,
                    CropPlace { node: node, is_stroke: is_stroke, index: index },
                    request,
                    fraction,
                    phase,
                    host,
                    effect,
                ),
                _ => nothing,
            },
        DesignAction::ShaderApply { node, collection, index, shader, fraction } => match (
            node,
            strokes_of(collection),
            shader,
        ) {
            (Some(node), Some(is_stroke), Some(shader)) => paint_action_outcome(
                before,
                after,
                panel_before,
                panel_after,
                CropPlace { node: node, is_stroke: is_stroke, index: index },
                PaintRequest::Payload {
                    payload: PaintPayload::Shader(shader),
                    unsourced: false,
                },
                fraction,
                EditPhase::Commit,
                host,
                effect,
            ),
            _ => nothing,
        },
        DesignAction::EffectEdit { node, effect: name, property, value, phase } => match (
            node,
            crate::design_effects::effect_named(name@),
        ) {
            (Some(node), Some(reference)) => {
                &&& crate::design_edits::same_but_open(panel_before, panel_after)
                &&& effect matches ActionEffect::Phase(ended)
                &&& crate::design_session::phase_outcome(
                    effect_builder(node, reference, property, value, facts.new_shadow),
                    before,
                    after,
                    panel_before.open,
                    panel_after.open,
                    node,
                    phase,
                    true,
                    ended,
                )
            },
            _ => nothing,
        },
        DesignAction::PropertyEdit { node, property, value, facts: given, phase } =>
            match node {
                Some(node) => property_phase(
                    host,
                    before,
                    after,
                    panel_before,
                    panel_after,
                    node,
                    property,
                    value,
                    given,
                    phase,
                    effect,
                ),
                None => nothing,
            },
        DesignAction::TypographyEdit { node, property, value, facts: given, phase, .. } =>
            match node {
                Some(node) => property_phase(
                    host,
                    before,
                    after,
                    panel_before,
                    panel_after,
                    node,
                    property,
                    value,
                    given,
                    phase,
                    effect,
                ),
                None => nothing,
            },
        DesignAction::MediaCrop { node, collection, index, action: step, facts: given } =>
            match (node, strokes_of(collection)) {
                (Some(node), Some(is_stroke)) => {
                    &&& crate::design_edits::same_but_open(panel_before, panel_after)
                    &&& effect matches ActionEffect::Crop(left)
                    &&& crate::design_media::crop_outcome(
                        before,
                        after,
                        panel_before.open,
                        panel_after.open,
                        CropPlace { node: node, is_stroke: is_stroke, index: index },
                        step,
                        given,
                        left,
                    )
                },
                _ => nothing,
            },
        DesignAction::PageBackground { page, color, phase } => match (page, panel_before.open) {
            (Some(root), Some(open)) => if open.doc.active_page == Some(root) {
                &&& crate::design_edits::same_but_open(panel_before, panel_after)
                &&& effect matches ActionEffect::Phase(ended)
                &&& crate::design_session::phase_outcome(
                    background_builder(root, color),
                    before,
                    after,
                    panel_before.open,
                    panel_after.open,
                    root,
                    phase,
                    true,
                    ended,
                )
            } else {
                nothing
            },
            _ => nothing,
        },
        _ => nothing,
    }
}

/// What a command does.
pub open spec fn command_outcome_of(
    before: DesignAdapter,
    after: DesignAdapter,
    panel_before: FantaDesignPanel,
    panel_after: FantaDesignPanel,
    action: DesignAction,
    facts: ActionFacts,
    effect: ActionEffect,
) -> bool {
    let unchanged = after == before && panel_after == panel_before;
    let nothing = unchanged && effect == ActionEffect::Nothing;
    match action {
        DesignAction::ExportAdd { target } => if export_current(panel_before, target, facts) {
            &&& panel_after == panel_before
            &&& effect == ActionEffect::Refresh
            &&& after.exports@.len() == before.exports@.len() + 1
            &&& after.exports@.drop_last() == before.exports@
            &&& crate::design_session::new_export(before.next_export_id, after.exports@.last())
            &&& after == (DesignAdapter {
                exports: after.exports,
                next_export_id: before.next_export_id.wrapping_add(1),
                last_echo: None,
                ..before
            })
        } else {
            nothing
        },
        DesignAction::ExportRemove { target, configuration } => if export_current(
            panel_before,
            target,
            facts,
        ) {
            &&& panel_after == panel_before
            &&& effect == ActionEffect::Refresh
            &&& after.exports@ == crate::design_session::without_export(
                before.exports@,
                configuration@,
            )
            &&& after == (DesignAdapter { exports: after.exports, last_echo: None, ..before })
        } else {
            nothing
        },
        DesignAction::ExportChange { target, configuration, settings, phase } =>
            if export_current(panel_before, target, facts) {
                &&& panel_after == panel_before
                &&& effect == ActionEffect::Refresh
                &&& crate::design_session::export_phase(
                    before,
                    after,
                    configuration@,
                    settings,
                    phase,
                )
            } else {
                nothing
            },
        DesignAction::Header { target, command, page, facts: given } => {
            &&& effect matches ActionEffect::Header(left)
            &&& crate::design_edits::header_outcome_of(
                before,
                after,
                panel_before,
                panel_after,
                target,
                command,
                page,
                given,
                left,
            )
        },
        DesignAction::AddAutoLayout { target, facts: given } => {
            &&& effect matches ActionEffect::Layout(change)
            &&& crate::design_edits::layout_outcome_of(
                before,
                after,
                panel_before,
                panel_after,
                target,
                given,
                change,
            )
        },
        DesignAction::MediaSource { node, collection, index, upload, source } => match (
            node,
            strokes_of(collection),
        ) {
            (Some(node), Some(is_stroke)) => if upload {
                upload_asked(
                    before,
                    after,
                    panel_before,
                    panel_after,
                    CropPlace { node: node, is_stroke: is_stroke, index: index },
                    (match panel_before.open {
                        Some(open) => crate::design_media::upload_kind_of(
                            open.doc,
                            node,
                            is_stroke,
                            index,
                        ),
                        None => MediaKind::Image,
                    }),
                    Some(source),
                    effect,
                )
            } else {
                nothing
            },
            _ => nothing,
        },
        DesignAction::MediaDrop { node, collection, index, kind, source } => match (
            node,
            strokes_of(collection),
        ) {
            (Some(node), Some(is_stroke)) => upload_asked(
                before,
                after,
                panel_before,
                panel_after,
                CropPlace { node: node, is_stroke: is_stroke, index: index },
                kind,
                Some(source),
                effect,
            ),
            _ => nothing,
        },
        DesignAction::GoToMain { node } => match (node, panel_before.open) {
            (Some(node), Some(open)) => if exists|root: NodeId|
                crate::design_lists::is_main_root(open.doc, node, root) {
                &&& effect == ActionEffect::SelectedMain(true)
                &&& after == before
                &&& exists|root: NodeId| #[trigger]
                    crate::design_lists::is_main_root(open.doc, node, root)
                        && crate::design_header::only_selected(
                        panel_before,
                        panel_after,
                        open,
                        seq![root],
                    )
            } else {
                unchanged && effect == ActionEffect::SelectedMain(false)
            },
            _ => nothing,
        },
        DesignAction::VideoPreview { .. } => match video_asked(panel_before, action) {
            Some((asset, command)) => {
                &&& effect == (ActionEffect::Video { asset: asset, command: command })
                &&& panel_after == panel_before
                &&& after == (DesignAdapter { last_echo: None, ..before })
            },
            None => nothing,
        },
        _ => nothing,
    }
}

/// What an action does whose operations are carried out at once.
pub open spec fn edit_outcome_of<H: Fn(&Doc, HostEdit) -> Vec<Operation>>(
    before: DesignAdapter,
    after: DesignAdapter,
    panel_before: FantaDesignPanel,
    panel_after: FantaDesignPanel,
    action: DesignAction,
    facts: ActionFacts,
    host: H,
    effect: ActionEffect,
) -> bool {
    match (offered_edit(panel_before, action), direct_edit(panel_before, action, facts)) {
        (Some(edit), _) => offered_at_once(
            offered_builder(edit, host),
            refused_with(edit),
            before,
            after,
            panel_before,
            panel_after,
            effect,
        ),
        (None, Some(edit)) => done_at_once(
            direct_builder(edit, host),
            before,
            after,
            panel_before,
            panel_after,
            effect,
        ),
        (None, None) => after == before && panel_after == panel_before && effect
            == undirected_effect(action),
    }
}

/// What an action does to the adapter and the panel, and what it leaves for the
/// host.
pub open spec fn action_outcome<H: Fn(&Doc, HostEdit) -> Vec<Operation>>(
    before: DesignAdapter,
    after: DesignAdapter,
    panel_before: FantaDesignPanel,
    panel_after: FantaDesignPanel,
    action: DesignAction,
    facts: ActionFacts,
    host: H,
    effect: ActionEffect,
) -> bool {
    match plain_effect(panel_before, action, facts) {
        Some(wanted) => after == before && panel_after == panel_before && effect == wanted,
        None => if is_gesture(action) {
            gesture_outcome(
                before,
                after,
                panel_before,
                panel_after,
                action,
                facts,
                host,
                effect,
            )
        } else if is_command(action) {
            command_outcome_of(
                before,
                after,
                panel_before,
                panel_after,
                action,
                facts,
                effect,
            )
        } else {
            edit_outcome_of(
                before,
                after,
                panel_before,
                panel_after,
                action,
                facts,
                host,
                effect,
            )
        },
    }
}

fn is_export_current(
    panel: &FantaDesignPanel,
    target: &DesignTarget,
    facts: &ActionFacts,
) -> (r: bool)
    ensures
        r == export_current(*panel, *target, *facts),
{
    match &panel.open {
        Some(open) => export_target_matches(
            target,
            &open.doc,
            &facts.page_root,
            facts.page_index,
        ),
        None => false,
    }
}

fn list_selected(panel: &FantaDesignPanel) -> (ids: Vec<NodeId>)
    ensures
        ids@ == selected_ids(*panel),
{
    match &panel.open {
        Some(open) => copy_ids(&open.doc.selection),
        None => Vec::new(),
    }
}

fn is_selection_current(panel: &FantaDesignPanel, target: &DesignTarget) -> (r: bool)
    ensures
        r == selection_current(*panel, *target),
{
    match &panel.open {
        Some(open) => target_matches_selection(target, &open.doc.selection),
        None => false,
    }
}

/// The effect of an action that changes nothing here.
fn decide_plain(panel: &FantaDesignPanel, action: &DesignAction, facts: &ActionFacts) -> (effect:
    Option<ActionEffect>)
    ensures
        effect == plain_effect(*panel, *action, *facts),
{
    match action {
        DesignAction::ExportAll { target } => Some(
            if is_export_current(panel, target, facts) {
                ActionEffect::Export
            } else {
                ActionEffect::Nothing
            },
        ),
        DesignAction::Export => Some(ActionEffect::Export),
        DesignAction::PropertyCopy { target } => Some(
            if is_selection_current(panel, target) {
                ActionEffect::Copy
            } else {
                ActionEffect::Nothing
            },
        ),
        DesignAction::Targeted { target, leaf } => if !is_selection_current(panel, target) {
            Some(ActionEffect::Nothing)
        } else {
            match leaf {
                TargetedLeaf::PropertyChange { .. } => None,
                TargetedLeaf::PropertyEdit { phase, .. } => if *phase == EditPhase::Commit {
                    None
                } else {
                    Some(ActionEffect::Nothing)
                },
                TargetedLeaf::Phased { phase } => Some(
                    if *phase == EditPhase::Commit {
                        ActionEffect::Unwired
                    } else {
                        ActionEffect::Nothing
                    },
                ),
                TargetedLeaf::Other => Some(ActionEffect::Unwired),
            }
        },
        DesignAction::Arrange { target, .. } => if is_selection_current(panel, target) {
            None
        } else {
            Some(ActionEffect::Nothing)
        },
        DesignAction::Transform { target, .. } => if is_selection_current(panel, target) {
            None
        } else {
            Some(ActionEffect::Nothing)
        },
        DesignAction::VideoPreview { .. } => match find_asked(panel, action) {
            Some(_) => if facts.plays_video {
                None
            } else {
                Some(ActionEffect::VideoUnavailable)
            },
            None => Some(ActionEffect::Nothing),
        },
        DesignAction::TypographyChange { range, .. } => if *range {
            Some(ActionEffect::TextRangeUnavailable)
        } else {
            None
        },
        DesignAction::TypographyEdit { range, phase, .. } => if *range {
            Some(
                if *phase == EditPhase::Commit {
                    ActionEffect::TextRangeUnavailable
                } else {
                    ActionEffect::Nothing
                },
            )
        } else {
            None
        },
        DesignAction::Surface => Some(ActionEffect::Surface),
        DesignAction::Other => Some(ActionEffect::Nothing),
        _ => None,
    }
}

impl DesignAdapter {
    fn ask_for_upload(
        &mut self,
        panel: &mut FantaDesignPanel,
        place: CropPlace,
        kind: MediaKind,
        source: Option<Option<AssetId>>,
    ) -> (effect: ActionEffect)
        requires
            old(panel).valid(),
        ensures
            final(panel).valid(),
            upload_asked(
                *old(self),
                *final(self),
                *old(panel),
                *final(panel),
                place,
                kind,
                source,
                effect,
            ),
    {
        let _ended = self.settle(panel);
        match &panel.open {
            Some(open) => if upload_starts(
                &open.doc,
                place.node,
                place.is_stroke,
                place.index,
                kind,
                source,
            ) {
                ActionEffect::Upload {
                    node: place.node,
                    is_stroke: place.is_stroke,
                    index: place.index,
                    kind,
                }
            } else {
                ActionEffect::Nothing
            },
            None => ActionEffect::Nothing,
        }
    }

    fn paint_action<H: Fn(&Doc, HostEdit) -> Vec<Operation>>(
        &mut self,
        panel: &mut FantaDesignPanel,
        place: CropPlace,
        request: PaintRequest,
        fraction: Scalar,
        phase: EditPhase,
        host: H,
    ) -> (effect: ActionEffect)
        requires
            old(panel).valid(),
            forall|doc: &Doc, edit: HostEdit|
                doc.well_formed() ==> #[trigger] host.requires((doc, edit)),
        ensures
            final(panel).valid(),
            paint_action_outcome(
                *old(self),
                *final(self),
                *old(panel),
                *final(panel),
                place,
                request,
                fraction,
                phase,
                host,
                effect,
            ),
    {
        match decide_paint_edit(&panel.open, place.node, request, phase) {
            PaintDecision::Ignore => ActionEffect::Nothing,
            PaintDecision::Upload(kind) => self.ask_for_upload(panel, place, kind, None),
            PaintDecision::BlendUnavailable => ActionEffect::BlendUnavailable,
            PaintDecision::NoPatternSource => ActionEffect::NoPatternSource,
            PaintDecision::Edit(value) => {
                let ended = self.edit_paint(&mut panel.open, place, value, fraction, phase, host);
                ActionEffect::Phase(ended)
            },
        }
    }

    fn direct_action<G: FnOnce(&Doc) -> Vec<Operation>>(
        &mut self,
        panel: &mut FantaDesignPanel,
        Ghost(does): Ghost<spec_fn(Doc, Vec<Operation>) -> bool>,
        build: G,
    ) -> (effect: ActionEffect)
        requires
            old(panel).valid(),
            forall|doc: &Doc| doc.well_formed() ==> #[trigger] build.requires((doc,)),
            forall|seen: Doc, operations: Vec<Operation>|
                build.ensures((&seen,), operations) ==> #[trigger] does(seen, operations),
        ensures
            final(panel).valid(),
            done_at_once(does, *old(self), *final(self), *old(panel), *final(panel), effect),
    {
        let ghost before = *self;
        let ghost panel_before = *panel;
        let applied = self.apply_now(&mut panel.open, build);
        proof {
            crate::design_session::lemma_commit_follows(
                crate::design_session::builds_of(build),
                does,
                crate::design_session::any_snapshot(before.session),
                panel_before.open,
                panel.open,
                applied,
            );
        }
        ActionEffect::Applied(applied)
    }

    fn offered_action<G: FnOnce(&Doc) -> Option<Vec<Operation>>>(
        &mut self,
        panel: &mut FantaDesignPanel,
        Ghost(does): Ghost<spec_fn(Doc, Option<Vec<Operation>>) -> bool>,
        refused: ActionEffect,
        build: G,
    ) -> (effect: ActionEffect)
        requires
            old(panel).valid(),
            !(refused is Applied),
            forall|doc: &Doc| doc.well_formed() ==> #[trigger] build.requires((doc,)),
            forall|seen: Doc, offered: Option<Vec<Operation>>|
                build.ensures((&seen,), offered) ==> #[trigger] does(seen, offered),
        ensures
            final(panel).valid(),
            offered_at_once(
                does,
                refused,
                *old(self),
                *final(self),
                *old(panel),
                *final(panel),
                effect,
            ),
    {
        let ghost before = *self;
        let ghost panel_before = *panel;
        let applied = self.apply_offer(&mut panel.open, build);
        proof {
            let offers = crate::design_session::offers_of(build);
            let wired = Some(applied is Some);
            crate::design_session::lemma_offer_follows(offers, does, wired);
            crate::design_session::lemma_commit_follows(
                crate::design_session::offer_builder(offers, wired),
                crate::design_session::offer_builder(does, wired),
                crate::design_session::any_snapshot(before.session),
                panel_before.open,
                panel.open,
                applied == Some(true),
            );
        }
        match applied {
            Some(applied) => ActionEffect::Applied(applied),
            None => refused,
        }
    }

    fn run_offered<H: Fn(&Doc, HostEdit) -> Vec<Operation>>(
        &mut self,
        panel: &mut FantaDesignPanel,
        action: &DesignAction,
        host: H,
    ) -> (effect: ActionEffect)
        requires
            old(panel).valid(),
            offered_edit(*old(panel), *action) is Some,
            forall|doc: &Doc, edit: HostEdit|
                doc.well_formed() ==> #[trigger] host.requires((doc, edit)),
        ensures
            final(panel).valid(),
            offered_at_once(
                offered_builder(offered_edit(*old(panel), *action)->0, host),
                refused_with(offered_edit(*old(panel), *action)->0),
                *old(self),
                *final(self),
                *old(panel),
                *final(panel),
                effect,
            ),
    {
        let ghost wanted = offered_edit(*panel, *action)->0;
        match action {
            DesignAction::PropertyChange { node: Some(node), property, value, facts }
            | DesignAction::TypographyChange { node: Some(node), property, value, facts, .. } => {
                let node = *node;
                let property = *property;
                let build = |doc: &Doc| -> (offered: Option<Vec<Operation>>)
                    requires
                        doc.well_formed(),
                    ensures
                        crate::design_edits::property_offered(
                            host,
                            node,
                            property,
                            *value,
                            *facts,
                            *doc,
                            offered,
                        ),
                    { offer_property(&host, node, property, value, facts, doc) };
                self.offered_action(
                    panel,
                    Ghost(offered_builder(wanted, host)),
                    ActionEffect::Unwired,
                    build,
                )
            },
            DesignAction::Targeted {
                leaf: TargetedLeaf::PropertyChange { property, value, facts }
                | TargetedLeaf::PropertyEdit { property, value, facts, .. },
                ..
            } => {
                let ids = list_selected(panel);
                let property = *property;
                let build = |doc: &Doc| -> (offered: Option<Vec<Operation>>)
                    requires
                        doc.well_formed(),
                    ensures
                        crate::design_edits::targeted_offered(
                            host,
                            ids@,
                            property,
                            *value,
                            *facts,
                            *doc,
                            offered,
                        ),
                    { offer_targeted(&host, &ids, property, value, facts, doc) };
                self.offered_action(
                    panel,
                    Ghost(offered_builder(wanted, host)),
                    ActionEffect::Unwired,
                    build,
                )
            },
            DesignAction::Arrange { operation, spans, .. } => {
                let ids = list_selected(panel);
                let operation = *operation;
                let spans = *spans;
                let build = |doc: &Doc| -> (offered: Option<Vec<Operation>>)
                    requires
                        doc.well_formed(),
                    ensures
                        crate::design_targets::arranged(
                            *doc,
                            crate::design_targets::arrange_plan_of(operation, ids@.len(), spans),
                            host,
                            offered,
                        ),
                    { offer_arranged(host, &ids, operation, spans, doc) };
                self.offered_action(
                    panel,
                    Ghost(offered_builder(wanted, host)),
                    ActionEffect::TidyUnavailable,
                    build,
                )
            },
            _ => ActionEffect::Nothing,
        }
    }

    fn host_action<H: Fn(&Doc, HostEdit) -> Vec<Operation>>(
        &mut self,
        panel: &mut FantaDesignPanel,
        edit: HostEdit,
        host: H,
    ) -> (effect: ActionEffect)
        requires
            old(panel).valid(),
            forall|doc: &Doc, edit: HostEdit|
                doc.well_formed() ==> #[trigger] host.requires((doc, edit)),
        ensures
            final(panel).valid(),
            done_at_once(
                direct_builder(DirectEdit::Host(edit), host),
                *old(self),
                *final(self),
                *old(panel),
                *final(panel),
                effect,
            ),
    {
        let build = |doc: &Doc| -> (operations: Vec<Operation>)
            requires
                doc.well_formed(),
            ensures
                host.ensures((doc, edit), operations),
            { host(doc, edit) };
        self.direct_action(panel, Ghost(direct_builder(DirectEdit::Host(edit), host)), build)
    }

    fn run_direct<H: Fn(&Doc, HostEdit) -> Vec<Operation>>(
        &mut self,
        panel: &mut FantaDesignPanel,
        action: DesignAction,
        facts: &ActionFacts,
        host: H,
    ) -> (effect: ActionEffect)
        requires
            old(panel).valid(),
            forall|doc: &Doc, edit: HostEdit|
                doc.well_formed() ==> #[trigger] host.requires((doc, edit)),
        ensures
            final(panel).valid(),
            match direct_edit(*old(panel), action, *facts) {
                Some(edit) => done_at_once(
                    direct_builder(edit, host),
                    *old(self),
                    *final(self),
                    *old(panel),
                    *final(panel),
                    effect,
                ),
                None => *final(self) == *old(self) && *final(panel) == *old(panel) && effect
                    == undirected_effect(action),
            },
    {
        let ghost wanted = direct_edit(*panel, action, *facts);
        match action {
            DesignAction::PaintChange { node, collection, index, color } => {
                let node = match node {
                    Some(node) => node,
                    None => {
                        return ActionEffect::Nothing;
                    },
                };
                let is_stroke = collection == Collection::Stroke;
                let build = |doc: &Doc| -> (operations: Vec<Operation>)
                    ensures
                        crate::design_paints::solid_outcome(
                            *doc,
                            node,
                            is_stroke,
                            index,
                            color,
                            operations@,
                        ),
                    { solid_paint_color_operations(doc, node, is_stroke, index, color) };
                self.direct_action(panel, Ghost(direct_builder(wanted->0, host)), build)
            },
            DesignAction::PaintReorder { node, collection, from, to } => {
                let node = match node {
                    Some(node) => node,
                    None => {
                        return ActionEffect::Nothing;
                    },
                };
                if collection == Collection::Stroke {
                    let new = facts.new_stroke.copy();
                    let build = |doc: &Doc| -> (operations: Vec<Operation>)
                        ensures
                            crate::design_lists::stroke_list_outcome(
                                *doc,
                                node,
                                ListEdit::Move { from: from, to: to },
                                new,
                                operations@,
                            ),
                        { stroke_list_operations(doc, node, ListEdit::Move { from, to }, &new) };
                    self.direct_action(panel, Ghost(direct_builder(wanted->0, host)), build)
                } else {
                    let build = |doc: &Doc| -> (operations: Vec<Operation>)
                        ensures
                            crate::design_lists::fill_move_outcome(
                                *doc,
                                node,
                                from,
                                to,
                                operations@,
                            ),
                        { fill_move_operations(doc, node, from, to) };
                    self.direct_action(panel, Ghost(direct_builder(wanted->0, host)), build)
                }
            },
            DesignAction::ItemAdd { node, collection } => {
                let node = match node {
                    Some(node) => node,
                    None => {
                        return ActionEffect::Nothing;
                    },
                };
                match collection {
                    Collection::Stroke => {
                        let new = facts.new_stroke.copy();
                        let build = |doc: &Doc| -> (operations: Vec<Operation>)
                            ensures
                                crate::design_lists::stroke_list_outcome(
                                    *doc,
                                    node,
                                    ListEdit::Append,
                                    new,
                                    operations@,
                                ),
                            { stroke_list_operations(doc, node, ListEdit::Append, &new) };
                        self.direct_action(panel, Ghost(direct_builder(wanted->0, host)), build)
                    },
                    Collection::Fill => self.host_action(panel, HostEdit::AddFill { id: node }, host),
                    Collection::Other => ActionEffect::Nothing,
                }
            },
            DesignAction::ItemRemove { node, collection, index } => {
                let node = match node {
                    Some(node) => node,
                    None => {
                        return ActionEffect::Nothing;
                    },
                };
                match collection {
                    Collection::Stroke => {
                        let new = facts.new_stroke.copy();
                        let build = |doc: &Doc| -> (operations: Vec<Operation>)
                            ensures
                                crate::design_lists::stroke_list_outcome(
                                    *doc,
                                    node,
                                    ListEdit::Remove { index: index },
                                    new,
                                    operations@,
                                ),
                            { stroke_list_operations(doc, node, ListEdit::Remove { index }, &new) };
                        self.direct_action(panel, Ghost(direct_builder(wanted->0, host)), build)
                    },
                    Collection::Fill => self.host_action(
                        panel,
                        HostEdit::RemoveFill { id: node, index },
                        host,
                    ),
                    Collection::Other => ActionEffect::Nothing,
                }
            },
            DesignAction::EffectAdd { node, kind } => {
                let node = match node {
                    Some(node) => node,
                    None => {
                        return ActionEffect::Nothing;
                    },
                };
                let shadow = facts.new_shadow;
                let radius = facts.new_blur_radius;
                let build = |doc: &Doc| -> (operations: Vec<Operation>)
                    ensures
                        crate::design_lists::effect_add_outcome(
                            *doc,
                            node,
                            kind,
                            shadow,
                            radius,
                            operations@,
                        ),
                    { effect_add_operations(doc, node, kind, shadow, radius) };
                self.direct_action(panel, Ghost(direct_builder(wanted->0, host)), build)
            },
            DesignAction::EffectRemove { node, effect } => {
                let node = match node {
                    Some(node) => node,
                    None => {
                        return ActionEffect::Nothing;
                    },
                };
                let reference = match effect_ref(effect.as_str()) {
                    Some(reference) => reference,
                    None => {
                        return ActionEffect::Nothing;
                    },
                };
                let build = |doc: &Doc| -> (operations: Vec<Operation>)
                    ensures
                        crate::design_lists::effect_remove_outcome(
                            *doc,
                            node,
                            reference,
                            operations@,
                        ),
                    { effect_remove_operations(doc, node, reference) };
                self.direct_action(panel, Ghost(direct_builder(wanted->0, host)), build)
            },
            DesignAction::Transform { operation, .. } => {
                let ids = list_selected(panel);
                match operation {
                    TransformOperation::RotateClockwise { degrees } => {
                        let build = |doc: &Doc| -> (operations: Vec<Operation>)
                            requires
                                doc.well_formed(),
                            ensures
                                crate::design_host::all_realized(
                                    host,
                                    *doc,
                                    crate::design_edits::turns(
                                        crate::design_targets::turned(ids@, degrees@),
                                    ),
                                    operations@,
                                ),
                            { build_turn(&host, &ids, &degrees, doc) };
                        self.direct_action(panel, Ghost(direct_builder(wanted->0, host)), build)
                    },
                    TransformOperation::Flip { mirrored } => {
                        let build = |doc: &Doc| -> (operations: Vec<Operation>)
                            ensures
                                operations@ == (match mirrored {
                                    Some(mirrored) => crate::design_targets::mirrored_list(
                                        *doc,
                                        ids@,
                                        mirrored@,
                                    ),
                                    None => Seq::empty(),
                                }),
                            { flip_operations(doc, &ids, &mirrored) };
                        self.direct_action(panel, Ghost(direct_builder(wanted->0, host)), build)
                    },
                }
            },
            DesignAction::FontApply { node, range, local, font } => match (node, font) {
                (Some(node), Some(font)) => {
                    if !local {
                        return ActionEffect::Nothing;
                    }
                    if range {
                        return ActionEffect::ApplyFont { node, font };
                    }
                    let build = |doc: &Doc| -> (operations: Vec<Operation>)
                        ensures
                            font_builds(node, font, *doc, operations@),
                        {
                            font_apply_operations(
                                doc,
                                node,
                                font.family.as_str(),
                                font.italic,
                                font.weight,
                            )
                        };
                    self.direct_action(panel, Ghost(direct_builder(wanted->0, host)), build)
                },
                _ => ActionEffect::Nothing,
            },
            DesignAction::ComponentProp { node, prop, resolved, input, phase } => {
                let now = match phase {
                    Some(phase) => phase == EditPhase::Commit,
                    None => true,
                };
                match (node, prop) {
                    (Some(node), Some(prop)) => {
                        if !now {
                            return ActionEffect::Nothing;
                        }
                        let build = |doc: &Doc| -> (operations: Vec<Operation>)
                            requires
                                doc.well_formed(),
                            ensures
                                prop_builds(host, node, prop, resolved, input, *doc, operations),
                            { build_prop(&host, node, prop, resolved, &input, doc) };
                        self.direct_action(panel, Ghost(direct_builder(wanted->0, host)), build)
                    },
                    _ => ActionEffect::Nothing,
                }
            },
            DesignAction::Detach { node } => match node {
                Some(node) => self.host_action(panel, HostEdit::Detach { id: node }, host),
                None => ActionEffect::Nothing,
            },
            DesignAction::VariableDetach { node, property } => match (node, detached_prop(property)) {
                (Some(node), Some(prop)) => self.host_action(
                    panel,
                    HostEdit::Unbind { id: node, prop },
                    host,
                ),
                _ => ActionEffect::Nothing,
            },
            _ => ActionEffect::Nothing,
        }
    }

    fn go_to_main(&mut self, panel: &mut FantaDesignPanel, node: NodeId) -> (effect: ActionEffect)
        requires
            old(panel).valid(),
        ensures
            final(panel).valid(),
            *final(self) == *old(self),
            match old(panel).open {
                Some(open) => if exists|root: NodeId|
                    crate::design_lists::is_main_root(open.doc, node, root) {
                    &&& effect == ActionEffect::SelectedMain(true)
                    &&& exists|root: NodeId| #[trigger]
                        crate::design_lists::is_main_root(open.doc, node, root)
                            && crate::design_header::only_selected(
                            *old(panel),
                            *final(panel),
                            open,
                            seq![root],
                        )
                } else {
                    *final(panel) == *old(panel) && effect == ActionEffect::SelectedMain(false)
                },
                None => *final(panel) == *old(panel) && effect == ActionEffect::Nothing,
            },
    {
        let root = match &panel.open {
            Some(open) => main_component_root(&open.doc, node),
            None => {
                return ActionEffect::Nothing;
            },
        };
        let root = match root {
            Some(root) => root,
            None => {
                return ActionEffect::SelectedMain(false);
            },
        };
        match panel.open.take() {
            Some(open) => {
                let mut open = open;
                let mut selection: Vec<NodeId> = Vec::new();
                selection.push(root);
                assert(selection@ =~= seq![root]);
                open.doc.selection = selection;
                panel.open = Some(open);
                ActionEffect::SelectedMain(true)
            },
            None => ActionEffect::Nothing,
        }
    }

    fn run_gesture<H: Fn(&Doc, HostEdit) -> Vec<Operation>>(
        &mut self,
        panel: &mut FantaDesignPanel,
        action: DesignAction,
        facts: &ActionFacts,
        host: H,
    ) -> (effect: ActionEffect)
        requires
            old(panel).valid(),
            forall|doc: &Doc, edit: HostEdit|
                doc.well_formed() ==> #[trigger] host.requires((doc, edit)),
        ensures
            final(panel).valid(),
            gesture_outcome(
                *old(self),
                *final(self),
                *old(panel),
                *final(panel),
                action,
                *facts,
                host,
                effect,
            ),
    {
        match action {
            DesignAction::PaintEdit { node, collection, index, request, fraction, phase } => match (
                node,
                stroke_collection(collection),
            ) {
                (Some(node), Some(is_stroke)) => self.paint_action(
                    panel,
                    CropPlace { node, is_stroke, index },
                    request,
                    fraction,
                    phase,
                    host,
                ),
                _ => ActionEffect::Nothing,
            },
            DesignAction::ShaderApply { node, collection, index, shader, fraction } => match (
                node,
                stroke_collection(collection),
                shader,
            ) {
                (Some(node), Some(is_stroke), Some(shader)) => self.paint_action(
                    panel,
                    CropPlace { node, is_stroke, index },
                    PaintRequest::Payload {
                        payload: PaintPayload::Shader(shader),
                        unsourced: false,
                    },
                    fraction,
                    EditPhase::Commit,
                    host,
                ),
                _ => ActionEffect::Nothing,
            },
            DesignAction::EffectEdit { node, effect, property, value, phase } => match (
                node,
                effect_ref(effect.as_str()),
            ) {
                (Some(node), Some(reference)) => {
                    let ended = self.edit_effect(
                        &mut panel.open,
                        node,
                        reference,
                        property,
                        value,
                        facts.new_shadow,
                        phase,
                    );
                    ActionEffect::Phase(ended)
                },
                _ => ActionEffect::Nothing,
            },
            DesignAction::PropertyEdit { node, property, value, facts: given, phase }
            | DesignAction::TypographyEdit { node, property, value, facts: given, phase, .. } =>
                match node {
                    Some(node) => {
                        let (ended, unwired) = self.edit_property(
                            &mut panel.open,
                            node,
                            property,
                            &value,
                            &given,
                            phase,
                            host,
                        );
                        if unwired {
                            ActionEffect::UnwiredPhase(ended)
                        } else {
                            ActionEffect::Phase(ended)
                        }
                    },
                    None => ActionEffect::Nothing,
                },
            DesignAction::MediaCrop { node, collection, index, action: step, facts: given } =>
                match (node, stroke_collection(collection)) {
                    (Some(node), Some(is_stroke)) => ActionEffect::Crop(
                        self.crop_action(
                            &mut panel.open,
                            CropPlace { node, is_stroke, index },
                            step,
                            &given,
                        ),
                    ),
                    _ => ActionEffect::Nothing,
                },
            DesignAction::PageBackground { page, color, phase } => {
                let root = match page {
                    Some(root) => root,
                    None => {
                        return ActionEffect::Nothing;
                    },
                };
                let shown = match &panel.open {
                    Some(open) => match open.doc.active_page {
                        Some(active) => active == root,
                        None => false,
                    },
                    None => false,
                };
                if !shown {
                    return ActionEffect::Nothing;
                }
                let ended = self.edit_page_background(&mut panel.open, root, color, phase);
                ActionEffect::Phase(ended)
            },
            _ => ActionEffect::Nothing,
        }
    }

    fn run_command(
        &mut self,
        panel: &mut FantaDesignPanel,
        action: DesignAction,
        facts: &ActionFacts,
    ) -> (effect: ActionEffect)
        requires
            old(panel).valid(),
            action matches DesignAction::Header { facts: given, .. }
                ==> crate::design_header::header_measured(*old(panel), given),
        ensures
            final(panel).valid(),
            command_outcome_of(
                *old(self),
                *final(self),
                *old(panel),
                *final(panel),
                action,
                *facts,
                effect,
            ),
    {
        match action {
            DesignAction::ExportAdd { target } => {
                if !is_export_current(panel, &target, facts) {
                    return ActionEffect::Nothing;
                }
                self.add_export();
                ActionEffect::Refresh
            },
            DesignAction::ExportRemove { target, configuration } => {
                if !is_export_current(panel, &target, facts) {
                    return ActionEffect::Nothing;
                }
                self.remove_export(configuration.as_str());
                ActionEffect::Refresh
            },
            DesignAction::ExportChange { target, configuration, settings, phase } => {
                if !is_export_current(panel, &target, facts) {
                    return ActionEffect::Nothing;
                }
                self.change_export(configuration.as_str(), settings, phase);
                ActionEffect::Refresh
            },
            DesignAction::Header { target, command, page, facts: given } => ActionEffect::Header(
                self.header_command(panel, &target, command, page, &given),
            ),
            DesignAction::AddAutoLayout { target, facts: given } => ActionEffect::Layout(
                self.add_layout(panel, &target, &given),
            ),
            DesignAction::MediaSource { node, collection, index, upload, source } => {
                let (place, kind) = match (node, stroke_collection(collection)) {
                    (Some(node), Some(is_stroke)) => (
                        CropPlace { node, is_stroke, index },
                        match &panel.open {
                            Some(open) => upload_kind(&open.doc, node, is_stroke, index),
                            None => MediaKind::Image,
                        },
                    ),
                    _ => {
                        return ActionEffect::Nothing;
                    },
                };
                if upload {
                    self.ask_for_upload(panel, place, kind, Some(source))
                } else {
                    ActionEffect::Nothing
                }
            },
            DesignAction::MediaDrop { node, collection, index, kind, source } => match (
                node,
                stroke_collection(collection),
            ) {
                (Some(node), Some(is_stroke)) => self.ask_for_upload(
                    panel,
                    CropPlace { node, is_stroke, index },
                    kind,
                    Some(source),
                ),
                _ => ActionEffect::Nothing,
            },
            DesignAction::GoToMain { node } => match node {
                Some(node) => self.go_to_main(panel, node),
                None => ActionEffect::Nothing,
            },
            DesignAction::VideoPreview { .. } => match find_asked(panel, &action) {
                Some((asset, command)) => {
                    self.last_echo = None;
                    ActionEffect::Video { asset, command }
                },
                None => ActionEffect::Nothing,
            },
            _ => ActionEffect::Nothing,
        }
    }

    /// Takes an action of the inspector: its operations are built and carried out,
    /// tried or given up. `host` makes the operations of what only the host can
    /// compute.
    pub fn handle_design_action<H: Fn(&Doc, HostEdit) -> Vec<Operation>>(
        &mut self,
        panel: &mut FantaDesignPanel,
        action: DesignAction,
        facts: &ActionFacts,
        host: H,
    ) -> (effect: ActionEffect)
        requires
            old(panel).valid(),
            action matches DesignAction::Header { facts: given, .. }
                ==> crate::design_header::header_measured(*old(panel), given),
            forall|doc: &Doc, edit: HostEdit|
                doc.well_formed() ==> #[trigger] host.requires((doc, edit)),
        ensures
            final(panel).valid(),
            action_outcome(
                *old(self),
                *final(self),
                *old(panel),
                *final(panel),
                action,
                *facts,
                host,
                effect,
            ),
    {
        if let Some(effect) = decide_plain(panel, &action, facts) {
            return effect;
        }
        match action {
            DesignAction::PaintEdit { .. }
            | DesignAction::ShaderApply { .. }
            | DesignAction::EffectEdit { .. }
            | DesignAction::PropertyEdit { .. }
            | DesignAction::TypographyEdit { .. }
            | DesignAction::MediaCrop { .. }
            | DesignAction::PageBackground { .. } => self.run_gesture(panel, action, facts, host),
            DesignAction::ExportAdd { .. }
            | DesignAction::ExportRemove { .. }
            | DesignAction::ExportChange { .. }
            | DesignAction::Header { .. }
            | DesignAction::AddAutoLayout { .. }
            | DesignAction::MediaSource { .. }
            | DesignAction::MediaDrop { .. }
            | DesignAction::GoToMain { .. }
            | DesignAction::VideoPreview { .. } => self.run_command(panel, action, facts),
            DesignAction::PropertyChange { node: Some(_), .. }
            | DesignAction::TypographyChange { node: Some(_), .. }
            | DesignAction::Targeted { .. }
            | DesignAction::Arrange { .. } => self.run_offered(panel, &action, host),
            other => self.run_direct(panel, other, facts, host),
        }
    }
}

// ---------------------------------------------------------------------------
// Laws
// ---------------------------------------------------------------------------

/// The target of an action for what is selected.
pub open spec fn meant_for(action: DesignAction) -> Option<DesignTarget> {
    match action {
        DesignAction::PropertyCopy { target } => Some(target),
        DesignAction::Targeted { target, .. } => Some(target),
        DesignAction::Header { target, .. } => Some(target),
        DesignAction::AddAutoLayout { target, .. } => Some(target),
        DesignAction::Arrange { target, .. } => Some(target),
        DesignAction::Transform { target, .. } => Some(target),
        _ => None,
    }
}

/// No action that is meant for what is not selected any more changes anything.
pub proof fn lemma_stale_action_ignored<H: Fn(&Doc, HostEdit) -> Vec<Operation>>(
    before: DesignAdapter,
    after: DesignAdapter,
    panel_before: FantaDesignPanel,
    panel_after: FantaDesignPanel,
    action: DesignAction,
    facts: ActionFacts,
    host: H,
    effect: ActionEffect,
    target: DesignTarget,
)
    requires
        action_outcome(
            before,
            after,
            panel_before,
            panel_after,
            action,
            facts,
            host,
            effect,
        ),
        !selection_current(panel_before, target),
        meant_for(action) == Some(target),
    ensures
        after == before,
        panel_after == panel_before,
{
}

/// An action on a document that may not be edited never changes what the document
/// holds, once no gesture is under way.
pub proof fn lemma_read_only_action<H: Fn(&Doc, HostEdit) -> Vec<Operation>>(
    before: DesignAdapter,
    after: DesignAdapter,
    panel_before: FantaDesignPanel,
    panel_after: FantaDesignPanel,
    action: DesignAction,
    facts: ActionFacts,
    host: H,
    effect: ActionEffect,
)
    requires
        action_outcome(
            before,
            after,
            panel_before,
            panel_after,
            action,
            facts,
            host,
            effect,
        ),
        panel_before.open matches Some(open) && !open.editable,
        before.session is None,
    ensures
        panel_after.open matches Some(now) && now.doc.content()
            == panel_before.open->0.doc.content(),
{
}

} // verus!
