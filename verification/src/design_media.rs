//! Pictures and videos in paints: uploading them, and cropping them in place.

use vstd::prelude::*;
use vstd::string::*;

use crate::design_paint_view::{CropPlace, TurnFacts};
use crate::design_paints::{
    current_paint, image_paint, paint_edit_operations, replace_paint_with_upload, video_paint,
    MediaPayload, MediaPlacement, PaintEditValue, PaintOutcome, PaintPayload, QuarterTurn,
};
use crate::design_session::{CropSession, CropTool, DesignAdapter};
use crate::document::{Doc, Transform};
use crate::ids::{AssetId, DocId, NodeId};
use crate::operations::Operation;
use crate::paint::{Fill, ImageAdjust, ImageFitMode};
use crate::panel::{record, EmptyItem, OpenDocument};
use crate::sameness::Compared;
use crate::scalar::Scalar;

verus! {

// ---------------------------------------------------------------------------
// Uploads
// ---------------------------------------------------------------------------

#[derive(Clone, Copy, Debug, PartialEq, Eq, Structural)]
pub enum MediaKind {
    Image,
    Video,
}

/// The asset of a media paint of a kind.
pub open spec fn asset_of(fill: Fill, kind: MediaKind) -> Option<AssetId> {
    match (fill, kind) {
        (Fill::Image { asset, .. }, MediaKind::Image) => Some(asset),
        (Fill::Video { video, .. }, MediaKind::Video) => Some(video.asset),
        _ => None,
    }
}

fn media_asset(fill: &Fill, kind: MediaKind) -> (asset: Option<AssetId>)
    ensures
        asset == asset_of(*fill, kind),
{
    match (fill, kind) {
        (Fill::Image { asset, .. }, MediaKind::Image) => Some(*asset),
        (Fill::Video { video, .. }, MediaKind::Video) => Some(video.asset),
        _ => None,
    }
}

/// An upload may start: the paint is there, and still shows the source that it
/// was asked to replace, where it was asked to replace one. A source whose name
/// stands for no asset is never shown.
pub open spec fn upload_may_start(
    doc: Doc,
    id: NodeId,
    is_stroke: bool,
    index: usize,
    kind: MediaKind,
    source: Option<Option<AssetId>>,
) -> bool {
    match crate::design_paints::layer_paint(doc, id, is_stroke, index) {
        Some(fill) => source matches Some(source) ==> source is Some && asset_of(fill, kind)
            == source,
        None => false,
    }
}

pub fn upload_starts(
    doc: &Doc,
    id: NodeId,
    is_stroke: bool,
    index: usize,
    kind: MediaKind,
    source: Option<Option<AssetId>>,
) -> (r: bool)
    ensures
        r == upload_may_start(*doc, id, is_stroke, index, kind, source),
{
    match current_paint(doc, id, is_stroke, index) {
        Some(fill) => match source {
            Some(Some(wanted)) => match media_asset(fill, kind) {
                Some(asset) => asset == wanted,
                None => false,
            },
            Some(None) => false,
            None => true,
        },
        None => false,
    }
}

/// A paint that shows a video is replaced by a video, any other by a picture.
pub open spec fn upload_kind_of(doc: Doc, id: NodeId, is_stroke: bool, index: usize) -> MediaKind {
    match crate::design_paints::layer_paint(doc, id, is_stroke, index) {
        Some(Fill::Video { .. }) => MediaKind::Video,
        _ => MediaKind::Image,
    }
}

pub fn upload_kind(doc: &Doc, id: NodeId, is_stroke: bool, index: usize) -> (kind: MediaKind)
    ensures
        kind == upload_kind_of(*doc, id, is_stroke, index),
{
    match current_paint(doc, id, is_stroke, index) {
        Some(Fill::Video { .. }) => MediaKind::Video,
        _ => MediaKind::Image,
    }
}

/// The largest video that is taken, in bytes.
pub const MAX_VIDEO_BYTES: u64 = 104857600;

/// A video that is neither empty nor too large.
pub fn video_size_allowed(length: u64) -> (r: bool)
    ensures
        r == (0 < length <= 100 * 1024 * 1024),
{
    length > 0 && length <= MAX_VIDEO_BYTES
}

/// A picture that is not larger than is taken.
pub fn image_size_allowed(length: u64, limit: usize) -> (r: bool)
    ensures
        r == (length <= limit),
{
    length <= limit as u64
}

/// Why an upload came to nothing.
#[derive(Clone, Copy, Debug, PartialEq, Eq, Structural)]
pub enum UploadError {
    ReadOnly,
    Closed,
    DocumentChanged,
    ImagePaintChanged,
    VideoPaintChanged,
    HashCollision,
    VideoSize,
    /// A picture of at least so many bytes.
    ImageTooLarge(usize),
}

pub open spec fn upload_words(error: UploadError) -> Seq<char> {
    match error {
        UploadError::ReadOnly => "this document is read-only"@,
        UploadError::Closed => "the document is closed"@,
        UploadError::DocumentChanged => "the document changed"@,
        UploadError::ImagePaintChanged => "the paint changed while choosing an image"@,
        UploadError::VideoPaintChanged => "the paint changed while choosing a video"@,
        UploadError::HashCollision => "video asset hash collision"@,
        UploadError::VideoSize => "video must be nonempty and no larger than 100 MiB"@,
        UploadError::ImageTooLarge(limit) => "image must be smaller than "@ + crate::text::decimal(
            limit as nat,
        ) + " bytes"@,
    }
}

/// What is said when an upload came to nothing.
pub open spec fn upload_notice_text(kind: MediaKind, error: UploadError) -> Seq<char> {
    (match kind {
        MediaKind::Image => "Image fill: "@,
        MediaKind::Video => "Video fill: "@,
    }) + upload_words(error)
}

pub fn upload_notice(kind: MediaKind, error: UploadError) -> (text: String)
    ensures
        text@ == upload_notice_text(kind, error),
{
    let mut text = match kind {
        MediaKind::Image => "Image fill: ".to_owned(),
        MediaKind::Video => "Video fill: ".to_owned(),
    };
    match error {
        UploadError::ReadOnly => text.append("this document is read-only"),
        UploadError::Closed => text.append("the document is closed"),
        UploadError::DocumentChanged => text.append("the document changed"),
        UploadError::ImagePaintChanged => text.append("the paint changed while choosing an image"),
        UploadError::VideoPaintChanged => text.append("the paint changed while choosing a video"),
        UploadError::HashCollision => text.append("video asset hash collision"),
        UploadError::VideoSize => text.append("video must be nonempty and no larger than 100 MiB"),
        UploadError::ImageTooLarge(limit) => {
            let mut words = crate::text::numbered("image must be smaller than ", limit);
            words.append(" bytes");
            assert(words@ =~= upload_words(error));
            text.append(words.as_str());
        },
    }
    text
}

/// Uploaded media, prepared and stored.
#[derive(Debug, PartialEq)]
pub struct Upload {
    pub kind: MediaKind,
    /// The document that the upload was started in.
    pub document: DocId,
    /// The paint that the upload was started on.
    pub expected: Fill,
    pub asset: AssetId,
    /// Of a video.
    pub poster: Option<AssetId>,
    /// Another video is stored under the same asset.
    pub collision: bool,
    /// The opacity of the paint where it is a color or a gradient.
    pub fraction: Scalar,
}

/// The paint at a place is still the expected one.
pub open spec fn paint_kept(
    doc: Doc,
    id: NodeId,
    is_stroke: bool,
    index: usize,
    expected: Fill,
) -> bool {
    crate::design_paints::layer_paint(doc, id, is_stroke, index) matches Some(fill) && fill.alike(
        expected,
    )
}

pub fn paint_is_kept(
    doc: &Doc,
    id: NodeId,
    is_stroke: bool,
    index: usize,
    expected: &Fill,
) -> (r: bool)
    ensures
        r == paint_kept(*doc, id, is_stroke, index, *expected),
{
    match current_paint(doc, id, is_stroke, index) {
        Some(fill) => fill.is_alike(expected),
        None => false,
    }
}

/// The paint that an upload makes of the one it was started on.
pub open spec fn uploaded(upload: Upload) -> Fill {
    match upload.kind {
        MediaKind::Image => crate::design_paints::with_image(
            upload.expected,
            upload.asset,
            upload.fraction,
        ),
        MediaKind::Video => crate::design_paints::with_video(
            upload.expected,
            upload.asset,
            upload.poster,
            upload.fraction,
        ),
    }
}

/// What is in the way of an upload. `empty` is the item where it has lost its
/// document.
pub open spec fn upload_refused(
    open: Option<OpenDocument>,
    empty: EmptyItem,
    id: NodeId,
    is_stroke: bool,
    index: usize,
    upload: Upload,
) -> Option<UploadError> {
    match open {
        None => Some(
            if empty.editable {
                UploadError::Closed
            } else {
                UploadError::ReadOnly
            },
        ),
        Some(open) => if !open.editable {
            Some(UploadError::ReadOnly)
        } else if open.doc.id != upload.document {
            Some(UploadError::DocumentChanged)
        } else if !paint_kept(open.doc, id, is_stroke, index, upload.expected) {
            Some(
                match upload.kind {
                    MediaKind::Image => UploadError::ImagePaintChanged,
                    MediaKind::Video => UploadError::VideoPaintChanged,
                },
            )
        } else if upload.kind == MediaKind::Video && upload.collision {
            Some(UploadError::HashCollision)
        } else {
            None
        },
    }
}

/// What finishing an upload does. A refused upload changes nothing.
pub open spec fn finish_outcome(
    before: Option<OpenDocument>,
    after: Option<OpenDocument>,
    empty: EmptyItem,
    id: NodeId,
    is_stroke: bool,
    index: usize,
    upload: Upload,
    r: Result<bool, UploadError>,
) -> bool {
    match upload_refused(before, empty, id, is_stroke, index, upload) {
        Some(error) => r == Err::<bool, UploadError>(error) && after == before,
        None => {
            let open = before->0;
            &&& r matches Ok(changed)
            &&& after matches Some(now)
            &&& now.editable
            &&& exists|done: Option<Operation>| #[trigger]
                crate::design_paints::upload_outcome(
                    open.doc,
                    now.doc,
                    id,
                    is_stroke,
                    index,
                    uploaded(upload),
                    done,
                ) && changed == done is Some && crate::panel::recorded(
                    open,
                    now,
                    None,
                    (match done {
                        Some(operation) => seq![operation],
                        None => Seq::empty(),
                    }),
                )
        },
    }
}

/// Puts uploaded media into a paint; whether the document changed. Where it did
/// not, what was stored for the upload is not needed.
pub fn finish_upload(
    open: &mut Option<OpenDocument>,
    empty: EmptyItem,
    id: NodeId,
    is_stroke: bool,
    index: usize,
    upload: &Upload,
) -> (r: Result<bool, UploadError>)
    requires
        crate::design_session::in_order(*old(open)),
    ensures
        crate::design_session::in_order(*final(open)),
        finish_outcome(*old(open), *final(open), empty, id, is_stroke, index, *upload, r),
{
    let fill = match &*open {
        None => {
            return Err(
                if empty.editable {
                    UploadError::Closed
                } else {
                    UploadError::ReadOnly
                },
            );
        },
        Some(document) => {
            if !document.editable {
                return Err(UploadError::ReadOnly);
            }
            if document.doc.id != upload.document {
                return Err(UploadError::DocumentChanged);
            }
            if !paint_is_kept(&document.doc, id, is_stroke, index, &upload.expected) {
                return Err(
                    match upload.kind {
                        MediaKind::Image => UploadError::ImagePaintChanged,
                        MediaKind::Video => UploadError::VideoPaintChanged,
                    },
                );
            }
            if upload.kind == MediaKind::Video && upload.collision {
                return Err(UploadError::HashCollision);
            }
            match upload.kind {
                MediaKind::Image => image_paint(&upload.expected, upload.asset, upload.fraction),
                MediaKind::Video => video_paint(
                    &upload.expected,
                    upload.asset,
                    upload.poster,
                    upload.fraction,
                ),
            }
        },
    };
    match open.take() {
        None => Err(UploadError::Closed),
        Some(document) => {
            let mut document = document;
            let ghost before = document;
            let done = replace_paint_with_upload(&mut document.doc, id, is_stroke, index, fill);
            assert(crate::design_paints::upload_outcome(
                before.doc,
                document.doc,
                id,
                is_stroke,
                index,
                fill,
                done,
            ));
            let changed = done.is_some();
            let mut step: Vec<Operation> = Vec::new();
            if let Some(operation) = done {
                step.push(operation);
                assert(step@ =~= seq![operation]);
            }
            record(&mut document.history, None, step);
            *open = Some(document);
            Ok(changed)
        },
    }
}

// ---------------------------------------------------------------------------
// Media paints
// ---------------------------------------------------------------------------

/// A picture or a video that can be edited in its paint.
#[derive(Clone, Copy, Debug, PartialEq, Eq, Structural)]
pub struct EditableMedia {
    pub kind: MediaKind,
    pub asset: AssetId,
    pub placement: MediaPlacement,
    pub adjust: ImageAdjust,
}

/// The media of a paint, where it can be edited.
pub open spec fn media_in(fill: Fill, turn: TurnFacts) -> Option<EditableMedia> {
    match fill {
        Fill::Image { asset, mode, crop, scale, adjust, .. } => if mode == ImageFitMode::Stretch
            && crop is None || !turn.exactly_none && turn.quarter == QuarterTurn::Upright {
            None
        } else {
            Some(
                EditableMedia {
                    kind: MediaKind::Image,
                    asset: asset,
                    placement: crate::design_paint_view::placement_shown(
                        mode,
                        crop,
                        scale,
                        turn.quarter,
                    ),
                    adjust: adjust,
                },
            )
        },
        Fill::Video { video, .. } => if video.mode == ImageFitMode::Stretch && video.crop is None
            || !turn.at_quarter {
            None
        } else {
            Some(
                EditableMedia {
                    kind: MediaKind::Video,
                    asset: video.asset,
                    placement: crate::design_paint_view::placement_shown(
                        video.mode,
                        video.crop,
                        video.scale,
                        turn.quarter,
                    ),
                    adjust: video.adjust,
                },
            )
        },
        _ => None,
    }
}

pub open spec fn media_at(
    doc: Doc,
    id: NodeId,
    is_stroke: bool,
    index: usize,
    turn: TurnFacts,
) -> Option<EditableMedia> {
    match crate::design_paints::layer_paint(doc, id, is_stroke, index) {
        Some(fill) => media_in(fill, turn),
        None => None,
    }
}

pub fn media_payload_for(
    doc: &Doc,
    id: NodeId,
    is_stroke: bool,
    index: usize,
    turn: TurnFacts,
) -> (media: Option<EditableMedia>)
    ensures
        media == media_at(*doc, id, is_stroke, index, turn),
{
    match current_paint(doc, id, is_stroke, index) {
        Some(Fill::Image { asset, mode, crop, scale, adjust, .. }) => {
            if *mode == ImageFitMode::Stretch && crop.is_none() || !turn.exactly_none
                && turn.quarter == QuarterTurn::Upright {
                return None;
            }
            Some(
                EditableMedia {
                    kind: MediaKind::Image,
                    asset: *asset,
                    placement: crate::design_paint_view::design_media_placement(
                        *mode,
                        *crop,
                        *scale,
                        turn.quarter,
                    ),
                    adjust: *adjust,
                },
            )
        },
        Some(Fill::Video { video, .. }) => {
            if video.mode == ImageFitMode::Stretch && video.crop.is_none() || !turn.at_quarter {
                return None;
            }
            Some(
                EditableMedia {
                    kind: MediaKind::Video,
                    asset: video.asset,
                    placement: crate::design_paint_view::design_media_placement(
                        video.mode,
                        video.crop,
                        video.scale,
                        turn.quarter,
                    ),
                    adjust: video.adjust,
                },
            )
        },
        _ => None,
    }
}

// ---------------------------------------------------------------------------
// Cropping
// ---------------------------------------------------------------------------

/// A crop that the host has scaled by the tool's zoom and fitted to its aspect
/// ratio: the size it comes to, and the window of that size about the same
/// middle, within the picture.
#[derive(Clone, Copy, Debug, PartialEq, Eq, Structural)]
pub struct ScaledCrop {
    pub width: Scalar,
    pub height: Scalar,
    pub window: Transform,
}

pub open spec fn positive(value: Scalar) -> bool {
    value.finite() && !value.le(Scalar::of(crate::scalar::ZERO))
}

fn is_positive(value: Scalar) -> (r: bool)
    ensures
        r == positive(value),
{
    value.is_finite() && !value.at_most(Scalar::of(crate::scalar::ZERO))
}

/// The tool can be scaled: zoom, aspect and window are finite and positive, and
/// the window is upright.
pub open spec fn scalable(tool: CropTool, zoom: Scalar, source_aspect: Scalar) -> bool {
    let small = Scalar::of(crate::scalar::MILLIONTH);
    &&& positive(zoom)
    &&& positive(source_aspect)
    &&& positive(tool.transform.m11)
    &&& positive(tool.transform.m22)
    &&& tool.transform.tx.finite()
    &&& tool.transform.ty.finite()
    &&& !small.lt(tool.transform.m12.absolute())
    &&& !small.lt(tool.transform.m21.absolute())
}

/// The window that a crop comes to, where it comes to one.
pub open spec fn crop_window(
    tool: CropTool,
    zoom: Scalar,
    source_aspect: Scalar,
    scaled: ScaledCrop,
) -> Option<Transform> {
    if scalable(tool, zoom, source_aspect) && positive(scaled.width) && positive(scaled.height) {
        Some(scaled.window)
    } else {
        None
    }
}

pub fn crop_transform_for_state(
    tool: &CropTool,
    zoom: Scalar,
    source_aspect: Scalar,
    scaled: &ScaledCrop,
) -> (window: Option<Transform>)
    ensures
        window == crop_window(*tool, zoom, source_aspect, *scaled),
{
    let small = Scalar::of(crate::scalar::MILLIONTH);
    if !is_positive(zoom) || !is_positive(source_aspect) || !is_positive(tool.transform.m11)
        || !is_positive(tool.transform.m22) || !tool.transform.tx.is_finite()
        || !tool.transform.ty.is_finite() || small.less(tool.transform.m12.abs()) || small.less(
        tool.transform.m21.abs(),
    ) {
        return None;
    }
    if !is_positive(scaled.width) || !is_positive(scaled.height) {
        return None;
    }
    Some(scaled.window)
}

#[derive(Clone, Copy, Debug, PartialEq, Eq, Structural)]
pub enum CropAction {
    Begin,
    Preview { transform: Transform, zoom: Scalar, aspect_ratio: u32 },
    Commit { transform: Transform, zoom: Scalar, aspect_ratio: u32 },
    Cancel,
    ResizeToFit,
}

/// What the host says of the media that is cropped: its rotation, its width by its
/// height where it is at hand, the scaled crop, whether that is a valid placement,
/// and its filters as the panel normalises them.
#[derive(Clone, Copy, Debug, PartialEq, Eq, Structural)]
pub struct CropFacts {
    pub turn: TurnFacts,
    pub source_aspect: Option<Scalar>,
    pub scaled: ScaledCrop,
    pub valid: bool,
    pub filters: Option<ImageAdjust>,
}

/// The tool as a step of cropping sets it.
pub open spec fn tool_at(transform: Transform, zoom: Scalar, aspect_ratio: u32) -> CropTool {
    CropTool { transform: transform, zoom: Some(zoom), aspect_ratio: Some(aspect_ratio) }
}

/// The window that a step of cropping comes to; none where the media is not at
/// hand.
pub open spec fn window_at(
    transform: Transform,
    zoom: Scalar,
    aspect_ratio: u32,
    facts: CropFacts,
) -> Option<Transform> {
    match facts.source_aspect {
        Some(source_aspect) => crop_window(
            tool_at(transform, zoom, aspect_ratio),
            zoom,
            source_aspect,
            facts.scaled,
        ),
        None => None,
    }
}

fn find_window(tool: &CropTool, zoom: Scalar, facts: &CropFacts) -> (window: Option<Transform>)
    ensures
        window == (match facts.source_aspect {
            Some(source_aspect) => crop_window(*tool, zoom, source_aspect, facts.scaled),
            None => None,
        }),
{
    match facts.source_aspect {
        Some(source_aspect) => crop_transform_for_state(tool, zoom, source_aspect, &facts.scaled),
        None => None,
    }
}

/// What is left for the host after a step of cropping.
#[derive(Clone, Copy, Debug, PartialEq, Eq, Structural)]
pub enum CropEffect {
    /// Nothing to do.
    Ignored,
    /// Say that the crop cannot be applied.
    NotApplicable,
    /// Show the document anew; where a gesture ended, whether its edit was
    /// carried out.
    Refresh { ended: Option<bool> },
}

/// The paint edit that puts media in another placement.
pub open spec fn placed(media: EditableMedia, placement: MediaPlacement, facts: CropFacts) ->
    PaintPayload {
    let payload = MediaPayload {
        asset: Some(media.asset),
        placement: placement,
        valid: facts.valid,
        filters: facts.filters,
    };
    match media.kind {
        MediaKind::Image => PaintPayload::Image(payload),
        MediaKind::Video => PaintPayload::Video(payload),
    }
}

fn place_media(media: &EditableMedia, placement: MediaPlacement, facts: &CropFacts) -> (payload:
    PaintPayload)
    ensures
        payload == placed(*media, placement, *facts),
{
    let payload = MediaPayload {
        asset: Some(media.asset),
        placement,
        valid: facts.valid,
        filters: facts.filters,
    };
    match media.kind {
        MediaKind::Image => PaintPayload::Image(payload),
        MediaKind::Video => PaintPayload::Video(payload),
    }
}

/// What an edit of a paint by a payload may build on a document.
pub open spec fn payload_builds(
    place: CropPlace,
    payload: PaintPayload,
    seen: Doc,
    operations: Vec<Operation>,
) -> bool {
    crate::design_paints::paint_edit_outcome(
        seen,
        place.node,
        place.is_stroke,
        place.index,
        PaintEditValue::Payload(payload),
        Scalar::of(crate::scalar::ONE),
        PaintOutcome::Operations(operations),
    )
}

/// The media of the paint that is cropped in the open document.
pub open spec fn open_media(
    open: Option<OpenDocument>,
    place: CropPlace,
    facts: CropFacts,
) -> Option<EditableMedia> {
    match open {
        Some(open) => media_at(open.doc, place.node, place.is_stroke, place.index, facts.turn),
        None => None,
    }
}

/// What an edit of a paint by a payload may build.
pub open spec fn payload_builder(place: CropPlace, payload: PaintPayload) -> spec_fn(
    Doc,
    Vec<Operation>,
) -> bool {
    |seen: Doc, operations: Vec<Operation>| payload_builds(place, payload, seen, operations)
}

/// The edit is built on the document with the layer put back, and tried while the
/// gesture goes on.
pub open spec fn crop_previewed(
    adapter: DesignAdapter,
    before: Option<OpenDocument>,
    after: Option<OpenDocument>,
    place: CropPlace,
    payload: PaintPayload,
) -> bool {
    crate::design_session::preview_outcome(
        payload_builder(place, payload),
        crate::design_session::session_for(adapter.session, place.node),
        before,
        after,
    )
}

/// The edit is built on the document with the layer put back, and carried out.
pub open spec fn crop_committed(
    adapter: DesignAdapter,
    before: Option<OpenDocument>,
    after: Option<OpenDocument>,
    place: CropPlace,
    payload: PaintPayload,
    ended: Option<bool>,
) -> bool {
    let snapshot = crate::design_session::session_for(adapter.session, place.node);
    ended is Some == snapshot is Some && exists|committed: bool| #[trigger]
        crate::design_session::commit_outcome(
            payload_builder(place, payload),
            snapshot,
            before,
            after,
            committed,
        ) && (ended is Some ==> ended == Some(committed))
}

/// The crop is over, and with it the gesture on its layer; without one all that
/// was under way is given up.
pub open spec fn crop_closed(before: DesignAdapter, after: DesignAdapter, place: CropPlace) -> bool {
    if crate::design_session::session_for(before.session, place.node) is Some {
        after == (DesignAdapter { session: None, crop: None, last_echo: None, ..before })
    } else {
        crate::design_session::gave_up(before, after)
    }
}

/// What a step of cropping does.
pub open spec fn crop_outcome(
    before: DesignAdapter,
    after: DesignAdapter,
    open_before: Option<OpenDocument>,
    open_after: Option<OpenDocument>,
    place: CropPlace,
    action: CropAction,
    facts: CropFacts,
    effect: CropEffect,
) -> bool {
    let ignored = after == before && open_after == open_before && effect == CropEffect::Ignored;
    match open_media(open_before, place, facts) {
        None => ignored,
        Some(media) => match action {
            CropAction::Begin => match media.placement {
                MediaPlacement::Crop { transform } => {
                    &&& effect == (CropEffect::Refresh { ended: None })
                    &&& after.crop == Some(
                        CropSession {
                            place: place,
                            tool: CropTool {
                                transform: transform,
                                zoom: None,
                                aspect_ratio: None,
                            },
                        },
                    )
                    &&& crate::design_session::gave_up(
                        before,
                        (DesignAdapter { session: None, crop: None, ..after }),
                    )
                    &&& crate::design_session::open_restored(
                        open_before,
                        open_after,
                        crate::design_session::any_snapshot(before.session),
                    )
                    &&& after.session == crate::design_session::session_on(
                        open_after,
                        place.node,
                    )
                },
                _ => ignored,
            },
            CropAction::Preview { transform, zoom, aspect_ratio } => if !(before.crop matches Some(crop) && crop.place
                == place) {
                ignored
            } else {
                &&& after == (DesignAdapter {
                    crop: Some(
                        CropSession {
                            place: place,
                            tool: tool_at(transform, zoom, aspect_ratio),
                        },
                    ),
                    last_echo: None,
                    ..before
                })
                &&& match window_at(transform, zoom, aspect_ratio, facts) {
                    None => open_after == open_before && effect == CropEffect::NotApplicable,
                    Some(window) => effect == (CropEffect::Refresh { ended: None })
                        && crop_previewed(
                        before,
                        open_before,
                        open_after,
                        place,
                        placed(media, MediaPlacement::Crop { transform: window }, facts),
                    ),
                }
            },
            CropAction::Commit { transform, zoom, aspect_ratio } => if !(before.crop matches Some(crop) && crop.place
                == place) {
                ignored
            } else {
                match window_at(transform, zoom, aspect_ratio, facts) {
                    None => {
                        &&& effect == CropEffect::NotApplicable
                        &&& open_after == open_before
                        &&& after == (DesignAdapter {
                            crop: Some(
                        CropSession {
                            place: place,
                            tool: tool_at(transform, zoom, aspect_ratio),
                        },
                    ),
                            last_echo: None,
                            ..before
                        })
                    },
                    Some(window) => {
                        &&& effect matches CropEffect::Refresh { ended }
                        &&& crop_closed(before, after, place)
                        &&& crop_committed(
                            before,
                            open_before,
                            open_after,
                            place,
                            placed(media, MediaPlacement::Crop { transform: window }, facts),
                            ended,
                        )
                    },
                }
            },
            CropAction::Cancel => {
                &&& after == (DesignAdapter {
                    session: None,
                    crop: None,
                    last_echo: None,
                    ..before
                })
                &&& effect matches CropEffect::Refresh { ended }
                &&& ended == (if crate::design_session::session_for(
                    before.session,
                    place.node,
                ) is Some {
                    Some(false)
                } else {
                    None
                })
                &&& crate::design_session::open_restored(
                    open_before,
                    open_after,
                    crate::design_session::session_for(before.session, place.node),
                )
            },
            CropAction::ResizeToFit => {
                &&& effect matches CropEffect::Refresh { ended }
                &&& crop_closed(before, after, place)
                &&& crop_committed(
                    before,
                    open_before,
                    open_after,
                    place,
                    placed(media, MediaPlacement::Fit { rotation: QuarterTurn::Upright }, facts),
                    ended,
                )
            },
        },
    }
}

fn payload_ops(place: CropPlace, payload: PaintPayload, doc: &Doc) -> (operations: Vec<Operation>)
    ensures
        payload_builds(place, payload, *doc, operations),
{
    let value = PaintEditValue::Payload(payload);
    match paint_edit_operations(
        doc,
        place.node,
        place.is_stroke,
        place.index,
        &value,
        Scalar::of(crate::scalar::ONE),
    ) {
        PaintOutcome::Operations(operations) => operations,
        PaintOutcome::OpacityField { .. } => Vec::new(),
    }
}

impl DesignAdapter {
    fn commit_payload(
        &mut self,
        open: &mut Option<OpenDocument>,
        place: CropPlace,
        payload: PaintPayload,
    ) -> (ended: Option<bool>)
        requires
            crate::design_session::in_order(*old(open)),
        ensures
            crate::design_session::in_order(*final(open)),
            final(self).session is None,
            if crate::design_session::session_for(old(self).session, place.node) is Some {
                crate::design_session::same_but_session(*old(self), *final(self))
            } else {
                crate::design_session::gave_up(*old(self), *final(self))
            },
            crop_committed(*old(self), *old(open), *final(open), place, payload, ended),
    {
        let ghost before = *open;
        let ghost started = self.session;
        let build = |doc: &Doc| -> (operations: Vec<Operation>)
            ensures
                payload_builds(place, payload, *doc, operations),
            { payload_ops(place, payload, doc) };
        let ended = self.commit_edit(open, place.node, build);
        proof {
            let snapshot = crate::design_session::session_for(started, place.node);
            let builds = crate::design_session::builds_of(build);
            let committed = choose|committed: bool| #[trigger]
                crate::design_session::commit_outcome(builds, snapshot, before, *open, committed)
                    && (ended is Some ==> ended == Some(committed));
            crate::design_session::lemma_commit_follows(
                builds,
                payload_builder(place, payload),
                snapshot,
                before,
                *open,
                committed,
            );
        }
        ended
    }

    fn preview_payload(
        &self,
        open: &mut Option<OpenDocument>,
        place: CropPlace,
        payload: PaintPayload,
    )
        requires
            crate::design_session::in_order(*old(open)),
        ensures
            crate::design_session::in_order(*final(open)),
            crop_previewed(*self, *old(open), *final(open), place, payload),
    {
        let ghost before = *open;
        let build = |doc: &Doc| -> (operations: Vec<Operation>)
            ensures
                payload_builds(place, payload, *doc, operations),
            { payload_ops(place, payload, doc) };
        self.preview_edit(open, place.node, build);
        proof {
            crate::design_session::lemma_preview_follows(
                crate::design_session::builds_of(build),
                payload_builder(place, payload),
                crate::design_session::session_for(self.session, place.node),
                before,
                *open,
            );
        }
    }

    /// One step of cropping a picture or a video in its paint.
    pub fn crop_action(
        &mut self,
        open: &mut Option<OpenDocument>,
        place: CropPlace,
        action: CropAction,
        facts: &CropFacts,
    ) -> (effect: CropEffect)
        requires
            crate::design_session::in_order(*old(open)),
        ensures
            crate::design_session::in_order(*final(open)),
            crop_outcome(
                *old(self),
                *final(self),
                *old(open),
                *final(open),
                place,
                action,
                *facts,
                effect,
            ),
    {
        let media = match &*open {
            Some(document) => media_payload_for(
                &document.doc,
                place.node,
                place.is_stroke,
                place.index,
                facts.turn,
            ),
            None => None,
        };
        let media = match media {
            Some(media) => media,
            None => {
                return CropEffect::Ignored;
            },
        };
        match action {
            CropAction::Begin => {
                let transform = match media.placement {
                    MediaPlacement::Crop { transform } => transform,
                    _ => {
                        return CropEffect::Ignored;
                    },
                };
                self.begin_edit(open, place.node);
                self.crop = Some(
                    CropSession {
                        place,
                        tool: CropTool { transform, zoom: None, aspect_ratio: None },
                    },
                );
                self.last_echo = None;
                CropEffect::Refresh { ended: None }
            },
            CropAction::Preview { transform, zoom, aspect_ratio } => {
                let tool = CropTool {
                    transform,
                    zoom: Some(zoom),
                    aspect_ratio: Some(aspect_ratio),
                };
                let here = match self.crop {
                    Some(crop) => crop.place == place,
                    None => false,
                };
                if !here {
                    return CropEffect::Ignored;
                }
                self.crop = Some(CropSession { place, tool });
                self.last_echo = None;
                match find_window(&tool, zoom, facts) {
                    None => CropEffect::NotApplicable,
                    Some(window) => {
                        let payload = place_media(
                            &media,
                            MediaPlacement::Crop { transform: window },
                            facts,
                        );
                        self.preview_payload(open, place, payload);
                        CropEffect::Refresh { ended: None }
                    },
                }
            },
            CropAction::Commit { transform, zoom, aspect_ratio } => {
                let tool = CropTool {
                    transform,
                    zoom: Some(zoom),
                    aspect_ratio: Some(aspect_ratio),
                };
                let here = match self.crop {
                    Some(crop) => crop.place == place,
                    None => false,
                };
                if !here {
                    return CropEffect::Ignored;
                }
                self.crop = Some(CropSession { place, tool });
                self.last_echo = None;
                match find_window(&tool, zoom, facts) {
                    None => CropEffect::NotApplicable,
                    Some(window) => {
                        let payload = place_media(
                            &media,
                            MediaPlacement::Crop { transform: window },
                            facts,
                        );
                        let ended = self.commit_payload(open, place, payload);
                        self.crop = None;
                        self.last_echo = None;
                        CropEffect::Refresh { ended }
                    },
                }
            },
            CropAction::Cancel => {
                let ended = self.cancel_edit(open, place.node);
                self.crop = None;
                self.last_echo = None;
                CropEffect::Refresh {
                    ended: if ended {
                        Some(false)
                    } else {
                        None
                    },
                }
            },
            CropAction::ResizeToFit => {
                let payload = place_media(
                    &media,
                    MediaPlacement::Fit { rotation: QuarterTurn::Upright },
                    facts,
                );
                let ended = self.commit_payload(open, place, payload);
                self.crop = None;
                self.last_echo = None;
                CropEffect::Refresh { ended }
            },
        }
    }
}

// ---------------------------------------------------------------------------
// Laws
// ---------------------------------------------------------------------------

/// An upload that is refused, for whatever reason, leaves the document as it is.
pub proof fn lemma_refused_upload_changes_nothing(
    before: Option<OpenDocument>,
    after: Option<OpenDocument>,
    empty: EmptyItem,
    id: NodeId,
    is_stroke: bool,
    index: usize,
    upload: Upload,
    r: Result<bool, UploadError>,
)
    requires
        finish_outcome(before, after, empty, id, is_stroke, index, upload, r),
        r is Err,
    ensures
        after == before,
        upload_refused(before, empty, id, is_stroke, index, upload) == Some(r->Err_0),
{
}

/// A crop works on the paint that it was begun on: steps for another paint do
/// nothing.
pub proof fn lemma_crop_keeps_to_its_paint(
    before: DesignAdapter,
    after: DesignAdapter,
    open_before: Option<OpenDocument>,
    open_after: Option<OpenDocument>,
    place: CropPlace,
    action: CropAction,
    facts: CropFacts,
    effect: CropEffect,
)
    requires
        crop_outcome(
            before,
            after,
            open_before,
            open_after,
            place,
            action,
            facts,
            effect,
        ),
        before.crop matches Some(crop) && crop.place != place,
        action is Preview || action is Commit,
    ensures
        after == before,
        open_after == open_before,
{
}

// ---------------------------------------------------------------------------
// Previews of videos
// ---------------------------------------------------------------------------

/// A video that is being played, as the host's player reports it.
#[derive(Debug, PartialEq)]
pub struct Playback {
    pub error: Option<String>,
    pub duration_us: u64,
    pub current_us: u64,
    pub playing: bool,
}

/// What the panel shows of a video.
#[derive(Debug, PartialEq)]
pub enum PreviewState {
    Failed(String),
    Loading,
    Ready { duration_us: u64, current_us: u64, playing: bool },
}

impl PreviewState {
    pub fn copy(&self) -> (r: Self)
        ensures
            r == *self,
    {
        match self {
            PreviewState::Failed(error) => PreviewState::Failed(error.clone()),
            PreviewState::Loading => PreviewState::Loading,
            PreviewState::Ready { duration_us, current_us, playing } => PreviewState::Ready {
                duration_us: *duration_us,
                current_us: *current_us,
                playing: *playing,
            },
        }
    }
}

/// An error of the fill comes first, then loading, then an error of the player. A
/// video without a length is still loading.
pub open spec fn preview_shown(
    error: Option<String>,
    loading: bool,
    playback: Option<Playback>,
) -> PreviewState {
    match (error, playback) {
        (Some(error), _) => PreviewState::Failed(error),
        (None, Some(playback)) => if loading {
            PreviewState::Loading
        } else {
            match playback.error {
                Some(error) => PreviewState::Failed(error),
                None => if playback.duration_us == 0 {
                    PreviewState::Loading
                } else {
                    PreviewState::Ready {
                        duration_us: playback.duration_us,
                        current_us: playback.current_us,
                        playing: playback.playing,
                    }
                },
            }
        },
        _ => PreviewState::Loading,
    }
}

pub fn design_video_preview_state(
    error: Option<String>,
    loading: bool,
    playback: Option<Playback>,
) -> (state: PreviewState)
    ensures
        state == preview_shown(error, loading, playback),
{
    if let Some(error) = error {
        return PreviewState::Failed(error);
    }
    match playback {
        Some(playback) => {
            if loading {
                return PreviewState::Loading;
            }
            match playback.error {
                Some(error) => PreviewState::Failed(error),
                None => if playback.duration_us == 0 {
                    PreviewState::Loading
                } else {
                    PreviewState::Ready {
                        duration_us: playback.duration_us,
                        current_us: playback.current_us,
                        playing: playback.playing,
                    }
                },
            }
        },
        None => PreviewState::Loading,
    }
}

} // verus!
