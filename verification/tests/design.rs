use std::sync::Arc;

use fig_viewer::design_data::{auto_layout_alignment, edit_data, set_auto_layout_alignment, DataEdit};
use fig_viewer::design_effects::{
    design_effects, effect_edit_operations, effect_kind_change_operations, effect_ref, EffectKind,
    EffectProperty, EffectRef, EffectValue,
};
use fig_viewer::design_header::{
    header_supports, matching_design_layers, selection_header_for_doc, HeaderCommand,
    HeaderControl, OfferedActions,
};
use fig_viewer::design_host::HostEdit;
use fig_viewer::design_layout_view::{
    design_font_catalog, design_layout, font_apply_operations, font_styles, FontFamily, FontStyle,
    LayoutSection,
};
use fig_viewer::design_lists::{
    fill_move_operations, page_background_operations, stroke_list_operations, ListEdit,
};
use fig_viewer::design_media::{
    crop_transform_for_state, finish_upload, image_size_allowed, paint_is_kept, upload_notice,
    MediaKind, PreviewState, ScaledCrop, Upload, UploadError,
};
use fig_viewer::design_node::{
    boxless_geometry_states, design_node, gate_capabilities, Capabilities, CapabilityFlags,
    CornerRadiusValue, NodeSection, PanelSection, ReadOnlyReason, ShapeGeometry, StateValue,
};
use fig_viewer::design_paint_view::{
    design_paint, media_paint_view_data, PaintSnapshot, ShownPayload, TurnFacts, VideoPreview,
};
use fig_viewer::design_paints::{
    current_paint, gradient_from_design, paint_edit_operations, pattern_source_candidates,
    pattern_source_is_valid, GradientFacts, MediaPayload, MediaPlacement, PaintEditValue,
    PaintOutcome, PaintPayload, PatternPayload, QuarterTurn,
};
use fig_viewer::design_properties::{property_operations, PropertyEdit, PropertyFacts};
use fig_viewer::design_session::{CropTool, DesignAdapter, EditPhase, ExportFormat};
use fig_viewer::design_shaders::{bundled_shader_catalog, ShaderAssignment, ShaderPayload};
use fig_viewer::design_targets::{
    arrange_operations, flip_operations, rotate_clockwise_operations, target_matches_selection,
    targeted_property_operations, ArrangeOperation, ArrangeStep, CenterSpans, DesignTarget,
    SelectionBox, TargetFacts, TargetedEdit,
};
use fig_viewer::design_values::{
    design_blend_mode, engine_blend_mode, DesignBlendMode, DesignKind, DesignLayoutMode,
    DesignProperty, DesignValue, ItemSpacingMode, LayoutAlignSelf, LayoutPositioning, SizingMode,
    StackingOrder, TextDecoration,
};
use fig_viewer::document::{
    AutoLayout, Blur, BlurKind, BooleanNode, BooleanOp, CanvasNode, CounterAlign, Doc, GroupNode,
    IndexKey, LayoutMode, MaskType, NodeData, NodeFlags, ParametricShape, PathData, PathSegment,
    PrimaryAlign, Shadow, ShadowKind, TextAlign, TextAutoResize, TextNode, TextStyle, TextVAlign,
    Transform, VectorNode,
};
use fig_viewer::ids::{AssetId, DocId, NodeId};
use fig_viewer::operations::Operation;
use fig_viewer::paint::{
    BlendMode, Color, Fill, FillList, Gradient, GradientGeometry, GradientStop, ImageAdjust,
    ImageFitMode,
    PatternFill, PatternHorizontalAlignment, PatternTileType, Point, Quad,
    ShaderPropertyAssignment, ShaderPropertyValue, Size, Stroke, StrokeAlign, StrokeCap,
    StrokeJoin,
};
use fig_viewer::panel::{EmptyItem, OpenDocument};
use fig_viewer::scalar::Scalar;

fn number(value: f64) -> Scalar {
    Scalar::of(value.to_bits())
}

fn value(number: Scalar) -> f64 {
    f64::from_bits(number.bits)
}

fn size(width: f64, height: f64) -> Size {
    Size { width: number(width), height: number(height) }
}

fn translation(x: f64, y: f64) -> Transform {
    Transform {
        m11: number(1.),
        m12: number(0.),
        m21: number(0.),
        m22: number(1.),
        tx: number(x),
        ty: number(y),
    }
}

fn rgb(r: u8, g: u8, b: u8) -> Color {
    Color { r, g, b, a: 255 }
}

fn node(raw: u128, data: NodeData, parent: Option<NodeId>, transform: Transform) -> CanvasNode {
    CanvasNode {
        id: NodeId { raw },
        parent,
        index: IndexKey::initial(),
        name: String::new(),
        flags: NodeFlags { hidden: false, locked: false, isolated_blend: false },
        transform,
        opacity: number(1.),
        blend_mode: BlendMode::Normal,
        is_mask: false,
        mask_type: MaskType::Alpha,
        effects: Arc::new(Vec::new()),
        blurs: Arc::new(Vec::new()),
        layout_child: None,
        bindings: Arc::new(Vec::new()),
        meta: serde_json::Value::Null,
        data: Arc::new(data),
    }
}

fn rectangle(width: f64, height: f64) -> VectorNode {
    VectorNode::outlined(
        PathData {
            segments: Arc::new(vec![
                PathSegment::Move { x: number(0.), y: number(0.) },
                PathSegment::Line { x: number(width), y: number(0.) },
                PathSegment::Line { x: number(width), y: number(height) },
                PathSegment::Line { x: number(0.), y: number(height) },
                PathSegment::Close,
            ]),
            rectangle: true,
        },
        FillList::one(Fill::solid(rgb(0xe0, 0x30, 0x30))),
        Arc::new(Vec::new()),
    )
}

fn text() -> TextNode {
    TextNode {
        content: "Hello".to_string(),
        style: TextStyle {
            font_family: "Inter".to_string(),
            italic: false,
            weight: 400,
            size_px: number(16.),
            line_height: number(1.2),
            line_height_auto_percent: None,
            letter_spacing: number(0.),
            underline: false,
            strikethrough: false,
            color: rgb(0, 0, 0),
        },
        style_runs: Arc::new(Vec::new()),
        align: TextAlign::Left,
        vertical_align: TextVAlign::Top,
        auto_resize: TextAutoResize::Fixed,
        local_size: size(100., 30.),
    }
}

fn insert(doc: &mut Doc, mut node: CanvasNode) -> NodeId {
    node.index = doc.next_child_index(node.parent);
    let id = node.id;
    doc.apply(&Operation::CreateNode { node: Arc::new(node) }).expect("insert");
    id
}

fn node_mut(doc: &mut Doc, id: NodeId) -> &mut CanvasNode {
    doc.nodes.iter_mut().find(|node| node.id == id).expect("node")
}

fn doc_with_page() -> (Doc, NodeId) {
    let mut doc = Doc {
        id: DocId { raw: 1 },
        nodes: Vec::new(),
        pages: Vec::new(),
        active_page: None,
        selection: Vec::new(),
        components: Vec::new(),
        sets: Vec::new(),
        tracks: Vec::new(),
    };
    let mut page = node(10, NodeData::Group(GroupNode::plain()), None, translation(0., 0.));
    page.name = "Page 1".to_string();
    let page = insert(&mut doc, page);
    doc.pages.push(page);
    doc.active_page = Some(page);
    (doc, page)
}

fn doc_with_rect() -> (Doc, NodeId, NodeId) {
    let (mut doc, page) = doc_with_page();
    let mut rect = node(
        20,
        NodeData::Vector(rectangle(200., 100.)),
        Some(page),
        translation(10., 20.),
    );
    rect.name = "Hero".to_string();
    let rect = insert(&mut doc, rect);
    (doc, page, rect)
}

fn doc_with_three_squares() -> (Doc, NodeId, [NodeId; 3]) {
    let (mut doc, page) = doc_with_page();
    let mut ids = Vec::new();
    for (index, x) in [10., 50., 120.].into_iter().enumerate() {
        let mut square = node(
            20 + index as u128,
            NodeData::Vector(rectangle(20., 20.)),
            Some(page),
            translation(x, 0.),
        );
        square.name = format!("Square {index}");
        ids.push(insert(&mut doc, square));
    }
    (doc, page, [ids[0], ids[1], ids[2]])
}

fn apply(doc: &mut Doc, operations: &Vec<Operation>) {
    doc.apply_all(operations).expect("apply");
}

fn undo(doc: &mut Doc, operations: &Vec<Operation>) {
    for operation in operations.iter().rev() {
        doc.apply(&operation.inverse()).expect("undo");
    }
}

fn paint_operations(
    doc: &Doc,
    id: NodeId,
    index: usize,
    edit: &PaintEditValue,
) -> Vec<Operation> {
    match paint_edit_operations(doc, id, false, index, edit, number(1.)) {
        PaintOutcome::Operations(operations) => operations,
        PaintOutcome::OpacityField { .. } => panic!("expected operations"),
    }
}

fn snapshot() -> PaintSnapshot {
    PaintSnapshot {
        kind: None,
        color: None,
        gradient: None,
        label: "Paint".to_string(),
        opacity_percent: None,
        visible: true,
        blend: Some(BlendMode::Normal),
    }
}

fn upright() -> TurnFacts {
    TurnFacts { quarter: QuarterTurn::Upright, exactly_none: true, at_quarter: true }
}

#[test]
fn pattern_picker_settings_write_and_echo_into_the_scene() {
    let (mut doc, page, [target, source, replacement_source]) = doc_with_three_squares();
    let candidates = pattern_source_candidates(&doc, target);
    assert!(candidates.iter().any(|candidate| candidate.node == source));
    assert!(candidates.iter().any(|candidate| candidate.node == replacement_source));
    assert!(
        candidates.iter().all(|candidate| candidate.node != target && candidate.node != page)
    );
    let pattern = PatternFill {
        source_node_id: source,
        tile_type: PatternTileType::HorizontalHexagonal,
        scaling_factor: number(0.75),
        spacing: Point { x: number(0.2), y: number(0.35) },
        horizontal_alignment: PatternHorizontalAlignment::End,
    };
    let payload = |pattern: PatternFill| {
        PaintPayload::Pattern(PatternPayload { source: Some(pattern) })
    };
    let operations =
        paint_operations(&doc, target, 0, &PaintEditValue::Payload(payload(pattern)));
    assert_eq!(operations.len(), 1);
    apply(&mut doc, &operations);
    let fill = current_paint(&doc, target, false, 0).expect("target fill");
    let echoed = design_paint("target", false, 0, &snapshot(), Some(fill), upright());
    assert_eq!(echoed.payload, ShownPayload::Pattern(pattern));
    let replaced = PatternFill { source_node_id: replacement_source, ..pattern };
    let edit = PaintEditValue::ModelEdit(Some(payload(replaced)));
    let operations = paint_operations(&doc, target, 0, &edit);
    assert_eq!(operations.len(), 1);
    apply(&mut doc, &operations);
    assert!(matches!(
        current_paint(&doc, target, false, 0),
        Some(Fill::Pattern { pattern, .. }) if pattern.source_node_id == replacement_source
    ));
    let own = PatternFill { source_node_id: target, ..pattern };
    let edit = PaintEditValue::ModelEdit(Some(payload(own)));
    assert!(
        paint_operations(&doc, target, 0, &edit).is_empty(),
        "a pattern cannot source itself"
    );
    assert!(!pattern_source_is_valid(&doc, target, page));
}

fn open(doc: Doc, editable: bool) -> Option<OpenDocument> {
    Some(OpenDocument { doc, editable, history: Vec::new() })
}

const EDITABLE: EmptyItem = EmptyItem { editable: true };

fn upload(kind: MediaKind, doc: &Doc, id: NodeId) -> Upload {
    Upload {
        kind,
        document: doc.id,
        expected: current_paint(doc, id, false, 0).expect("paint").copy(),
        asset: AssetId { raw: 77 },
        poster: match kind {
            MediaKind::Image => None,
            MediaKind::Video => Some(AssetId { raw: 78 }),
        },
        collision: false,
        fraction: number(1.),
    }
}

fn contrast() -> ImageAdjust {
    ImageAdjust { contrast: number(0.4), ..ImageAdjust::none() }
}

fn media(asset: AssetId) -> MediaPayload {
    MediaPayload {
        asset: Some(asset),
        placement: MediaPlacement::Fill { rotation: QuarterTurn::Upright },
        valid: true,
        filters: Some(contrast()),
    }
}

#[test]
fn image_upload_creates_an_asset_and_media_controls_edit_the_fill() {
    let (doc, _page, target) = doc_with_rect();
    let upload = upload(MediaKind::Image, &doc, target);
    let mut open = open(doc, true);
    assert_eq!(finish_upload(&mut open, EDITABLE, target, false, 0, &upload), Ok(true));
    let mut doc = open.expect("document").doc;
    assert!(matches!(
        current_paint(&doc, target, false, 0),
        Some(Fill::Image { asset, .. }) if *asset == upload.asset
    ));
    let edit = PaintEditValue::ModelEdit(Some(PaintPayload::Image(media(upload.asset))));
    let operations = paint_operations(&doc, target, 0, &edit);
    assert_eq!(operations.len(), 1);
    apply(&mut doc, &operations);
    assert!(matches!(
        current_paint(&doc, target, false, 0),
        Some(Fill::Image { adjust, .. }) if (value(adjust.contrast) - 0.4).abs() < 1e-5
    ));
}

#[test]
fn video_upload_keeps_source_and_poster_and_edits_filters() {
    let (doc, _page, target) = doc_with_rect();
    let upload = upload(MediaKind::Video, &doc, target);
    let mut open = open(doc, true);
    assert_eq!(finish_upload(&mut open, EDITABLE, target, false, 0, &upload), Ok(true));
    let mut doc = open.expect("document").doc;
    let fill = current_paint(&doc, target, false, 0).expect("video fill");
    assert!(matches!(
        fill,
        Fill::Video { video, .. } if video.asset == upload.asset && video.poster == upload.poster
    ));
    let echoed = design_paint("target", false, 0, &snapshot(), Some(fill), upright());
    assert!(matches!(&echoed.payload, ShownPayload::Video { .. }));
    let shown = vec![echoed];
    let (fills, strokes) = media_paint_view_data(target, &shown, &None, None, &Vec::new());
    assert!(strokes.is_empty());
    assert_eq!(fills[0].video, Some(upload.asset));
    assert_eq!(fills[0].preview, Some(PreviewState::Loading));
    let ready = || PreviewState::Ready { duration_us: 4_000_000, current_us: 1_500_000, playing: true };
    let previews = vec![VideoPreview { asset: upload.asset, state: ready() }];
    let (fills, _) = media_paint_view_data(target, &shown, &None, None, &previews);
    assert_eq!(fills[0].preview, Some(ready()));
    assert_eq!(fills[0].paint_id, "target-fill-0");
    let edit = PaintEditValue::ModelEdit(Some(PaintPayload::Video(media(upload.asset))));
    let operations = paint_operations(&doc, target, 0, &edit);
    assert_eq!(operations.len(), 1);
    apply(&mut doc, &operations);
    assert!(matches!(
        current_paint(&doc, target, false, 0),
        Some(Fill::Video { video, .. }) if (value(video.adjust.contrast) - 0.4).abs() < 1e-5
    ));
}

#[test]
fn an_upload_that_comes_too_late_changes_nothing() {
    let (doc, _page, target) = doc_with_rect();
    let image = || upload(MediaKind::Image, &doc, target);
    let video = || upload(MediaKind::Video, &doc, target);
    let other = || Fill::solid(Color { r: 1, g: 2, b: 3, a: 4 });
    let before = doc.copy();
    for (upload, editable, error) in [
        (image(), false, UploadError::ReadOnly),
        (Upload { document: DocId { raw: 2 }, ..image() }, true, UploadError::DocumentChanged),
        (Upload { expected: other(), ..image() }, true, UploadError::ImagePaintChanged),
        (Upload { expected: other(), ..video() }, true, UploadError::VideoPaintChanged),
        (Upload { collision: true, ..video() }, true, UploadError::HashCollision),
    ] {
        let mut open = open(doc.copy(), editable);
        assert_eq!(finish_upload(&mut open, EDITABLE, target, false, 0, &upload), Err(error));
        assert_eq!(open.expect("document").doc, before);
        assert!(!upload_notice(MediaKind::Image, error).is_empty());
    }
    let mut closed: Option<OpenDocument> = None;
    for (empty, error) in [
        (EDITABLE, UploadError::Closed),
        (EmptyItem { editable: false }, UploadError::ReadOnly),
    ] {
        assert_eq!(finish_upload(&mut closed, empty, target, false, 0, &image()), Err(error));
    }
}

#[test]
fn an_upload_of_what_is_there_changes_nothing() {
    let (doc, _page, target) = doc_with_rect();
    let first = upload(MediaKind::Image, &doc, target);
    let mut opened = open(doc, true);
    assert_eq!(finish_upload(&mut opened, EDITABLE, target, false, 0, &first), Ok(true));
    let doc = opened.as_ref().expect("document").doc.copy();
    let again = upload(MediaKind::Image, &doc, target);
    assert_eq!(finish_upload(&mut opened, EDITABLE, target, false, 0, &again), Ok(false));
    let opened = opened.expect("document");
    assert_eq!(opened.doc, doc);
    assert_eq!(opened.history.len(), 1);
}

#[test]
fn a_paint_is_kept_as_long_as_its_numbers_are_equal() {
    let (mut doc, _page, target) = doc_with_rect();
    let picture = |scale: f64| Fill::Image {
        asset: AssetId { raw: 7 },
        mode: ImageFitMode::Fill,
        opacity: number(1.),
        crop: None,
        scale: Some(number(scale)),
        rotation: None,
        blend: BlendMode::Normal,
        adjust: ImageAdjust::none(),
    };
    let mut vector = rectangle(10., 10.);
    vector.fills = FillList::one(picture(0.));
    doc.apply(&Operation::ReplaceData {
        id: target,
        old: doc.get(target).expect("node").data.clone(),
        new: Arc::new(NodeData::Vector(vector)),
    })
    .expect("apply");
    assert!(paint_is_kept(&doc, target, false, 0, &picture(0.)));
    assert!(paint_is_kept(&doc, target, false, 0, &picture(-0.)));
    assert!(!paint_is_kept(&doc, target, false, 0, &picture(1.)));
    assert!(!paint_is_kept(&doc, target, false, 0, &picture(f64::NAN)));
    assert!(!paint_is_kept(&doc, target, false, 1, &picture(0.)));
}

#[test]
fn a_picture_has_to_fit() {
    assert!(image_size_allowed(0, 10));
    assert!(image_size_allowed(10, 10));
    assert!(!image_size_allowed(11, 10));
}

#[test]
fn an_edit_that_leaves_a_layer_equal_is_no_operation() {
    let (mut doc, page, rect) = doc_with_rect();
    let color = Color { r: 9, g: 8, b: 7, a: 255 };
    let edit = PaintEditValue::Color(color);
    let operations = paint_operations(&doc, rect, 0, &edit);
    assert_eq!(operations.len(), 1);
    apply(&mut doc, &operations);
    assert!(paint_operations(&doc, rect, 0, &edit).is_empty());
    let operations = stroke_list_operations(&doc, rect, ListEdit::Append, &stroke(2.));
    apply(&mut doc, &operations);
    let operations = stroke_list_operations(&doc, rect, ListEdit::Append, &stroke(2.));
    apply(&mut doc, &operations);
    let swap = ListEdit::Move { from: 0, to: 1 };
    assert!(stroke_list_operations(&doc, rect, swap, &stroke(2.)).is_empty());
    let operations = stroke_list_operations(&doc, rect, ListEdit::Append, &stroke(3.));
    apply(&mut doc, &operations);
    let swap = ListEdit::Move { from: 0, to: 2 };
    assert_eq!(stroke_list_operations(&doc, rect, swap, &stroke(2.)).len(), 1);
    assert!(fill_move_operations(&doc, rect, 0, 0).is_empty());
    let operations = page_background_operations(&doc, page, color);
    apply(&mut doc, &operations);
    assert!(page_background_operations(&doc, page, color).is_empty());
}

fn shader_value(value: &ShaderPropertyValue) -> ShaderPropertyValue {
    match value {
        ShaderPropertyValue::Number(number) => ShaderPropertyValue::Number(*number),
        ShaderPropertyValue::Color(color) => ShaderPropertyValue::Color(*color),
        _ => panic!("the catalog holds numbers and colors"),
    }
}

#[test]
fn bundled_shader_selection_and_property_edit_roundtrip() {
    let (mut doc, _page, target) = doc_with_rect();
    let catalog = bundled_shader_catalog();
    assert_eq!(catalog.len(), 2);
    let definition = catalog
        .iter()
        .find(|shader| shader.id == "fanta:shader:halftone")
        .expect("halftone shader");
    let payload = |radius: Option<f64>| {
        PaintPayload::Shader(ShaderPayload {
            shader_id: definition.id.to_string(),
            properties: definition
                .properties
                .iter()
                .map(|property| ShaderAssignment {
                    definition_id: property.id.to_string(),
                    value: match radius {
                        Some(radius) if property.id == "radius" => {
                            ShaderPropertyValue::Number(number(radius))
                        }
                        _ => shader_value(&property.default),
                    },
                    fits: true,
                })
                .collect(),
        })
    };
    let operations = paint_operations(&doc, target, 0, &PaintEditValue::Payload(payload(None)));
    assert_eq!(operations.len(), 1);
    apply(&mut doc, &operations);
    let fill = current_paint(&doc, target, false, 0).expect("shader fill");
    let echoed = design_paint("target", false, 0, &snapshot(), Some(fill), upright());
    let ShownPayload::Shader { shader_id, name, properties } = &echoed.payload else {
        panic!("the shader is shown");
    };
    assert_eq!((shader_id.as_str(), name.as_str()), ("fanta:shader:halftone", "Halftone"));
    assert_eq!(properties.len(), 4);
    for (shown, property) in properties.iter().zip(&definition.properties) {
        assert_eq!(shown.definition_id, property.id);
        assert_eq!(shown.value, property.default);
    }
    let future_property = || ShaderPropertyAssignment {
        definition_id: "future_property".to_string(),
        value: ShaderPropertyValue::Opaque {
            kind_name: "future_type".to_string(),
            payload: "preserve this value".to_string(),
        },
    };
    let Some(Fill::Shader { shader, .. }) = current_paint(&doc, target, false, 0) else {
        panic!("shader fill");
    };
    let mut changed = shader.copy();
    let mut properties: Vec<ShaderPropertyAssignment> =
        changed.properties.iter().map(|property| property.copy()).collect();
    properties.push(future_property());
    changed.properties = Arc::new(properties);
    let mut vector = rectangle(200., 100.);
    vector.fills = FillList::one(Fill::Shader {
        shader: changed,
        opacity: number(1.),
        blend: BlendMode::Normal,
    });
    node_mut(&mut doc, target).data = Arc::new(NodeData::Vector(vector));

    let edit = PaintEditValue::Payload(payload(Some(1.25)));
    let operations = paint_operations(&doc, target, 0, &edit);
    assert_eq!(operations.len(), 1);
    apply(&mut doc, &operations);
    assert!(matches!(
        current_paint(&doc, target, false, 0),
        Some(Fill::Shader { shader, .. }) if shader.properties.contains(&future_property())
    ));
    let edit = PaintEditValue::ModelEdit(Some(payload(Some(1.5))));
    let operations = paint_operations(&doc, target, 0, &edit);
    assert_eq!(operations.len(), 1);
    apply(&mut doc, &operations);
    let Some(Fill::Shader { shader, .. }) = current_paint(&doc, target, false, 0) else {
        panic!("property edit must retain shader fill");
    };
    assert!(shader.properties.iter().any(|property| property.definition_id == "radius"
        && property.value == ShaderPropertyValue::Number(number(1.5))));
    assert!(shader.properties.contains(&future_property()));
}

#[test]
fn crop_zoom_and_ratio_produce_a_bounded_window() {
    let tool = CropTool {
        transform: translation(0., 0.),
        zoom: Some(number(2.)),
        aspect_ratio: Some(1),
    };
    // A source twice as wide as it is high, zoomed twice and cut to a square.
    let window = Transform { m11: number(0.5), ..translation(0.25, 0.) };
    let scaled = ScaledCrop { width: number(0.5), height: number(1.), window };
    let crop =
        crop_transform_for_state(&tool, number(2.), number(2.), &scaled).expect("valid crop");
    assert!((value(crop.m11) - 0.5).abs() < 1e-6);
    assert!((value(crop.m22) - 1.).abs() < 1e-6);
    assert!(value(crop.tx) >= 0. && value(crop.ty) >= 0.);
    assert!(
        value(crop.tx) + value(crop.m11) <= 1. && value(crop.ty) + value(crop.m22) <= 1.
    );
    for bad in [0., -1., f64::NAN, f64::INFINITY] {
        assert_eq!(crop_transform_for_state(&tool, number(bad), number(2.), &scaled), None);
        assert_eq!(crop_transform_for_state(&tool, number(2.), number(bad), &scaled), None);
    }
}

fn offered() -> OfferedActions {
    OfferedActions {
        create_component: true,
        use_as_mask: true,
        flatten: true,
        convert_to_frame: false,
        convert_to_section: false,
    }
}

#[test]
fn selection_header_only_exposes_commands_supported_by_the_current_selection() {
    let (doc, page, ids) = doc_with_three_squares();
    let single = selection_header_for_doc(&doc, &vec![ids[0]], Some(page), true, &offered())
        .expect("selected layer has a header");
    assert!(single.controls.contains(&HeaderControl::SelectMatchingLayers));
    assert!(single.controls.contains(&HeaderControl::CreateComponent));
    assert!(single.controls.contains(&HeaderControl::EditObject));

    let multiple =
        selection_header_for_doc(&doc, &vec![ids[0], ids[1]], Some(page), true, &offered())
            .expect("multiple selection has a header");
    assert!(
        multiple
            .controls
            .iter()
            .any(|control| matches!(control, HeaderControl::BooleanFlatten { boolean: true, .. })),
        "two vector layers support boolean operations"
    );
    for op in [BooleanOp::Union, BooleanOp::Subtract, BooleanOp::Intersect, BooleanOp::Exclude] {
        assert!(header_supports(&multiple, HeaderCommand::Boolean(op)));
        assert!(!header_supports(&single, HeaderCommand::Boolean(op)));
    }
    assert!(!multiple.controls.contains(&HeaderControl::UseAsMask));

    let viewer = selection_header_for_doc(&doc, &vec![ids[0]], Some(page), false, &offered())
        .expect("viewers can inspect the selection");
    assert_eq!(viewer.controls, vec![HeaderControl::SelectMatchingLayers]);
    assert_eq!(matching_design_layers(&doc, ids[0], Some(page)).len(), 3);
}

fn min_x(doc: &Doc, id: NodeId) -> f64 {
    let transform = doc.get(id).expect("square").transform;
    let right = value(transform.tx) + value(transform.m11) * 20.;
    value(transform.tx).min(right)
}

fn property_facts() -> PropertyFacts {
    PropertyFacts {
        swept: number(0.),
        miter_limit: number(4.),
        fraction: number(1.),
        rough_size: None,
        shown_size: None,
    }
}

#[test]
fn multi_selection_position_moves_the_selection_box_without_collapsing_spacing() {
    let (mut doc, _page, ids) = doc_with_three_squares();
    let ids = ids.to_vec();
    let facts = |left: f64, width: f64, moved: Vec<Transform>| TargetFacts {
        bounds: Some(SelectionBox {
            min_x: number(left),
            min_y: number(0.),
            width: number(width),
            height: number(20.),
        }),
        moved: moved.into_iter().map(Some).collect(),
        properties: vec![property_facts(); 3],
    };
    let shifted = [40., 80., 150.].map(|x| translation(x, 0.)).to_vec();
    let Some(TargetedEdit::Moved(operations)) = targeted_property_operations(
        &doc,
        &ids,
        DesignProperty::X,
        &DesignValue::Number(number(40.)),
        &facts(10., 130., shifted),
    ) else {
        panic!("selection X is supported");
    };
    assert_eq!(operations.len(), 3);
    apply(&mut doc, &operations);
    for (id, expected) in ids.iter().zip([40., 80., 150.]) {
        assert!((min_x(&doc, *id) - expected).abs() < 1e-9);
    }

    let scaled = [40., 120., 260.]
        .map(|x| Transform { m11: number(2.), ..translation(x, 0.) })
        .to_vec();
    let Some(TargetedEdit::Moved(operations)) = targeted_property_operations(
        &doc,
        &ids,
        DesignProperty::Width,
        &DesignValue::Number(number(260.)),
        &facts(40., 130., scaled),
    ) else {
        panic!("selection width is supported");
    };
    apply(&mut doc, &operations);
    assert!((min_x(&doc, ids[0]) - 40.).abs() < 1e-9);
    assert!((min_x(&doc, ids[2]) + 40. - 300.).abs() < 1e-9);

    assert!(
        targeted_property_operations(
            &doc,
            &ids,
            DesignProperty::Unwired,
            &DesignValue::Bool(true),
            &facts(40., 260., Vec::new()),
        )
        .is_none(),
        "an unsupported aggregate leaf cannot partially edit members"
    );
}

/// The canvas's own steps on a row of squares.
fn canvas(doc: &Doc, ids: &Vec<NodeId>, step: ArrangeStep) -> Vec<Operation> {
    let mut row: Vec<(NodeId, f64)> = ids.iter().map(|id| (*id, min_x(doc, *id))).collect();
    row.sort_by(|a, b| a.1.partial_cmp(&b.1).expect("finite"));
    let wanted: Vec<f64> = match step {
        ArrangeStep::Left => row.iter().map(|_| row[0].1).collect(),
        ArrangeStep::DistributeX if row.len() > 2 => {
            let last = row[row.len() - 1].1;
            let gap = (last - row[0].1) / (row.len() - 1) as f64;
            (0..row.len()).map(|place| row[0].1 + gap * place as f64).collect()
        }
        _ => row.iter().map(|(_, x)| *x).collect(),
    };
    row.iter()
        .zip(wanted)
        .filter(|((_, x), wanted)| (x - wanted).abs() > 1e-9)
        .map(|((id, _), wanted)| Operation::SetTransform {
            id: *id,
            old: doc.get(*id).expect("square").transform,
            new: translation(wanted, 0.),
        })
        .collect()
}

#[test]
fn arrange_maps_align_distribute_and_tidy_up() {
    let (mut doc, _page, ids) = doc_with_three_squares();
    let ids = ids.to_vec();
    let arrange = |doc: &Doc, ids: &Vec<NodeId>, operation: ArrangeOperation| {
        let spans = CenterSpans { horizontal: number(110.), vertical: number(0.) };
        arrange_operations(doc, ids, operation, Some(spans), |doc, edit| match edit {
            HostEdit::Arrange(step) => canvas(doc, ids, step),
            _ => Vec::new(),
        })
            .expect("the operation is wired")
    };
    let operations = arrange(&doc, &ids, ArrangeOperation::AlignLeft);
    assert_eq!(operations.len(), 2, "only the two trailing squares move");
    assert!(operations.iter().all(|op| matches!(op, Operation::SetTransform { .. })));
    apply(&mut doc, &operations);
    for id in &ids {
        assert!((min_x(&doc, *id) - 10.).abs() < 1e-9, "every square aligned");
    }

    let (doc, _page, ids) = doc_with_three_squares();
    let ids = ids.to_vec();
    assert!(
        arrange(&doc, &ids[..2].to_vec(), ArrangeOperation::DistributeHorizontal).is_empty(),
        "a two-node distribute is a no-op"
    );
    let operations = arrange(&doc, &ids, ArrangeOperation::DistributeHorizontal);
    assert_eq!(operations.len(), 1, "the outermost squares stay anchored");

    let mut tidy = doc.copy();
    let operations = arrange(&tidy, &ids, ArrangeOperation::TidyUp);
    assert!(!operations.is_empty());
    apply(&mut tidy, &operations);
    assert!((min_x(&tidy, ids[1]) - 65.).abs() < 1e-9);
}

fn change(doc: &mut Doc, id: NodeId, property: DesignProperty, value: DesignValue) {
    match property_operations(doc, id, property, &value, &property_facts()) {
        Some(PropertyEdit::Operations(operations)) => apply(doc, &operations),
        other => panic!("the control is backed by operations, got {other:?}"),
    }
}

#[test]
fn auto_layout_controls_write_and_echo_container_and_child_values() {
    let (mut doc, page, rect) = doc_with_rect();
    let frame = node(
        30,
        NodeData::Group(GroupNode {
            local_size: Some(size(200., 100.)),
            auto_layout: Some(AutoLayout::plain(LayoutMode::Horizontal)),
            ..GroupNode::plain()
        }),
        Some(page),
        translation(10., 20.),
    );
    let group = insert(&mut doc, frame);
    node_mut(&mut doc, rect).parent = Some(group);

    change(
        &mut doc,
        group,
        DesignProperty::LayoutMode,
        DesignValue::LayoutMode(DesignLayoutMode::Vertical),
    );
    change(
        &mut doc,
        group,
        DesignProperty::AutoLayoutAlignment,
        DesignValue::AutoLayoutAlignment { x: 2, y: 1 },
    );
    change(
        &mut doc,
        group,
        DesignProperty::ItemSpacingMode,
        DesignValue::ItemSpacingMode(ItemSpacingMode::Auto),
    );
    let padding = Quad {
        first: number(3.),
        second: number(5.),
        third: number(7.),
        fourth: number(11.),
    };
    change(
        &mut doc,
        group,
        DesignProperty::PaddingShorthand,
        DesignValue::NumberList(Arc::new([3., 5., 7., 11.].map(number).to_vec())),
    );
    change(
        &mut doc,
        group,
        DesignProperty::StackingOrder,
        DesignValue::StackingOrder(StackingOrder::FirstOnTop),
    );
    change(&mut doc, group, DesignProperty::IncludeStrokes, DesignValue::Bool(true));
    change(
        &mut doc,
        rect,
        DesignProperty::LayoutPositioning,
        DesignValue::LayoutPositioning(LayoutPositioning::Absolute),
    );
    change(
        &mut doc,
        rect,
        DesignProperty::LayoutAlignSelf,
        DesignValue::LayoutAlignSelf(LayoutAlignSelf::Stretch),
    );
    change(
        &mut doc,
        rect,
        DesignProperty::HorizontalSizing,
        DesignValue::SizingMode(SizingMode::Fill),
    );

    let shown = doc.get(group).expect("layout frame exists");
    let NodeData::Group(frame) = &*shown.data else {
        panic!("the wrapper is a group");
    };
    let layout = frame.auto_layout.expect("layout is active");
    assert_eq!(layout.mode, LayoutMode::Vertical);
    assert_eq!(layout.primary_align, PrimaryAlign::SpaceBetween);
    assert_eq!(layout.counter_align, CounterAlign::End);
    assert_eq!(layout.padding, padding);
    assert!(layout.reverse_z);
    assert!(layout.include_strokes);
    let section = LayoutSection { clip: false, auto: Some(layout) };
    let echoed = design_layout(&doc, shown, Some(section), false)
        .expect("layout controls are visible")
        .auto
        .expect("layout is shown");
    assert_eq!(echoed.mode, LayoutMode::Vertical);
    assert_eq!(echoed.item_spacing, ItemSpacingMode::Auto);
    assert_eq!(echoed.padding, padding);
    assert_eq!(echoed.stacking, StackingOrder::FirstOnTop);
    assert_eq!(echoed.include_strokes, Some(true));

    let child = doc.get(rect).expect("rectangle still exists");
    let settings = child.layout_child.expect("child layout settings");
    assert!(settings.absolute);
    assert_eq!(settings.align_self, Some(CounterAlign::Stretch));
    assert_eq!(value(settings.grow), 0.);
    let echoed = design_layout(&doc, child, None, true).expect("child controls are visible");
    let item = echoed.item.expect("the child lies in a layout");
    assert_eq!(item.positioning, LayoutPositioning::Absolute);
    assert_eq!(item.align_self, LayoutAlignSelf::Stretch);
    assert_eq!(echoed.horizontal_sizing, Some(SizingMode::Fill));
}

fn flags() -> CapabilityFlags {
    CapabilityFlags {
        aspect_ratio_lock: true,
        constraints: true,
        arrange: true,
        transforms: true,
        resize_to_fit: true,
        add_auto_layout: true,
        auto_layout_container: true,
        grid_auto_layout: true,
        layout_guides: true,
        pass_through_blend: true,
        clip_content: true,
        fill: true,
        stroke: true,
        effects: true,
        layer_appearance: true,
        visibility: true,
    }
}

fn preset() -> Capabilities {
    Capabilities {
        sections: vec![
            PanelSection::Position,
            PanelSection::Layer,
            PanelSection::Fill,
            PanelSection::Stroke,
        ],
        flags: flags(),
    }
}

fn section() -> NodeSection {
    NodeSection {
        name: "Hero".to_string(),
        visible: true,
        has_box: true,
        x: number(10.),
        y: number(20.),
        width: number(200.),
        height: number(100.),
        rotation_degrees: number(0.),
        opacity_percent: number(100.),
        corner_radius: CornerRadiusValue::NotApplicable,
        corner_smoothing_percent: None,
        fills: None,
        strokes: None,
        typography: None,
        layout: None,
        layout_child: false,
        instance: None,
        fill_turns: Vec::new(),
        stroke_turns: Vec::new(),
    }
}

#[test]
fn mask_type_and_shape_geometry_changes_echo_into_the_inspector() {
    let (mut doc, page, rect) = doc_with_rect();
    change(&mut doc, rect, DesignProperty::IsMask, DesignValue::Bool(true));
    change(
        &mut doc,
        rect,
        DesignProperty::MaskType,
        DesignValue::MaskType(MaskType::Vector),
    );
    let mut star = rectangle(200., 100.);
    star.local_size = Some(size(200., 100.));
    star.parametric = Some(ParametricShape::Star { points: 5, inner_ratio: number(0.5) });
    node_mut(&mut doc, rect).data = Arc::new(NodeData::Vector(star));
    let edit = property_operations(
        &doc,
        rect,
        DesignProperty::StarPointCount,
        &DesignValue::Number(number(8.)),
        &property_facts(),
    );
    let Some(PropertyEdit::Shape { shape, size: outline }) = edit else {
        panic!("star point count is backed");
    };
    assert_eq!(outline, size(200., 100.));
    let path = rectangle(200., 100.).path;
    let old = doc.get(rect).expect("rectangle").data.clone();
    let new = edit_data(&old, &DataEdit::Shape { shape, path }).expect("the shape changes");
    let operation = Operation::ReplaceData { id: rect, old, new: Arc::new(new) };
    doc.apply(&operation).expect("change star points");

    let boolean = BooleanNode {
        op: BooleanOp::Union,
        fills: FillList::of(Vec::new()),
        strokes: Arc::new(Vec::new()),
    };
    let boolean =
        insert(&mut doc, node(40, NodeData::Boolean(boolean), Some(page), translation(0., 0.)));
    change(
        &mut doc,
        boolean,
        DesignProperty::BooleanOperation,
        DesignValue::BooleanOperation(BooleanOp::Intersect),
    );

    let (star, _) =
        design_node(&doc, rect, "star", &section(), &preset()).expect("star is projected");
    assert!(star.is_mask);
    assert_eq!(star.mask_type, MaskType::Vector);
    assert_eq!(star.mask_label, Some(MaskType::Vector));
    let offered: Vec<bool> =
        star.effect_kinds.iter().map(|offer| offer.unavailable.is_none()).collect();
    assert_eq!(offered, vec![true, true, true, true, false]);
    assert!(!star.progressive_blur && !star.shadow_blend_mode);
    assert!(matches!(star.shape, ShapeGeometry::Star { count: 8, .. }));
    let (boolean, _) =
        design_node(&doc, boolean, "boolean", &section(), &preset()).expect("boolean");
    assert!(matches!(boolean.shape, ShapeGeometry::Boolean(BooleanOp::Intersect)));
}

#[test]
fn flipping_mirrors_the_selection_box_and_rotating_adds_ninety_degrees() {
    let (mut doc, _page, ids) = doc_with_three_squares();
    let ids = ids.to_vec();
    // The selection spans 10 to 140, so a point x goes to 150 - x.
    let mirrored = [10., 50., 120.]
        .map(|x| Some(Transform { m11: number(-1.), ..translation(150. - x, 0.) }))
        .to_vec();
    let operations = flip_operations(&doc, &ids, &Some(mirrored));
    assert_eq!(operations.len(), 3, "every member is remapped");
    apply(&mut doc, &operations);
    assert!((min_x(&doc, ids[0]) - 120.).abs() < 1e-9);
    assert!((min_x(&doc, ids[1]) - 80.).abs() < 1e-9);
    assert!((min_x(&doc, ids[2]) - 10.).abs() < 1e-9);

    let turned = rotate_clockwise_operations(&ids[..1].to_vec(), &vec![Some(number(90.))]);
    assert_eq!(turned, vec![(ids[0], number(90.))], "one square, one rotation");
    assert!(rotate_clockwise_operations(&ids, &vec![None, None, None]).is_empty());
}

#[test]
fn unsupported_node_paint_sections_are_hidden() {
    let text_caps =
        gate_capabilities(&preset(), DesignKind::Text, &NodeData::Text(text()), false);
    assert!(text_caps.flags.fill);
    assert!(!text_caps.flags.stroke);
    assert!(!text_caps.sections.contains(&PanelSection::Stroke));

    let boolean = NodeData::Boolean(BooleanNode {
        op: BooleanOp::Union,
        fills: FillList::of(Vec::new()),
        strokes: Arc::new(Vec::new()),
    });
    let boolean_caps =
        gate_capabilities(&preset(), DesignKind::BooleanOperation, &boolean, false);
    assert!(!boolean_caps.flags.fill && !boolean_caps.flags.stroke);
    assert!(!boolean_caps.sections.contains(&PanelSection::Fill));
    assert!(!boolean_caps.sections.contains(&PanelSection::Stroke));

    let vector = NodeData::Vector(rectangle(20., 20.));
    let vector_caps = gate_capabilities(&preset(), DesignKind::Rectangle, &vector, false);
    assert!(vector_caps.flags.fill && vector_caps.flags.stroke);
}

fn shadow() -> Shadow {
    Shadow {
        kind: ShadowKind::Drop,
        color: Color { r: 0, g: 0, b: 0, a: 64 },
        blur: number(4.),
        spread: number(0.),
        offset_x: number(0.),
        offset_y: number(4.),
        show_behind_node: false,
    }
}

#[test]
fn effect_edits_reject_nonfinite_filter_values() {
    let (mut doc, _page, rect) = doc_with_rect();
    let layer = node_mut(&mut doc, rect);
    layer.effects = Arc::new(vec![shadow()]);
    layer.blurs = Arc::new(vec![Blur { kind: BlurKind::Layer, radius: number(4.) }]);

    for bad in [f64::INFINITY, f64::NEG_INFINITY, f64::NAN] {
        for property in [
            EffectProperty::ShadowBlur,
            EffectProperty::ShadowSpread,
            EffectProperty::ShadowOffsetX,
            EffectProperty::ShadowOffsetY,
        ] {
            assert!(
                effect_edit_operations(
                    &doc,
                    rect,
                    EffectRef::Shadow(0),
                    property,
                    EffectValue::Number(number(bad)),
                    shadow(),
                )
                .is_none(),
                "nonfinite shadow value must not reach the renderer"
            );
        }
        assert!(
            effect_edit_operations(
                &doc,
                rect,
                EffectRef::Blur(0),
                EffectProperty::BlurRadius,
                EffectValue::Number(number(bad)),
                shadow(),
            )
            .is_none(),
            "nonfinite blur value must not reach the renderer"
        );
    }
}

#[test]
fn effects_are_found_again_by_their_id() {
    let (mut doc, _page, rect) = doc_with_rect();
    let layer = node_mut(&mut doc, rect);
    layer.effects = Arc::new(vec![shadow(), shadow()]);
    layer.blurs = Arc::new(vec![Blur { kind: BlurKind::Layer, radius: number(4.) }]);
    let shown = design_effects(doc.get(rect).expect("rect"));
    assert_eq!(shown.len(), 3);
    let refs: Vec<Option<EffectRef>> =
        shown.iter().map(|effect| effect_ref(&effect.id)).collect();
    assert_eq!(
        refs,
        vec![
            Some(EffectRef::Shadow(0)),
            Some(EffectRef::Shadow(1)),
            Some(EffectRef::Blur(0))
        ]
    );
    assert_eq!(effect_ref("shadow:"), None);
    let operations = effect_kind_change_operations(
        &doc,
        rect,
        EffectRef::Blur(0),
        EffectKind::InnerShadow,
        shadow(),
    )
    .expect("a blur becomes a shadow");
    apply(&mut doc, &operations);
    let layer = doc.get(rect).expect("rect");
    assert_eq!((layer.effects.len(), layer.blurs.len()), (3, 0));
}

fn gradient() -> Gradient {
    Gradient {
        geometry: GradientGeometry::Linear {
            start: Point { x: number(0.5), y: number(0.) },
            end: Point { x: number(0.5), y: number(1.) },
        },
        stops: Arc::new(vec![
            GradientStop { position: number(0.), color: Color { r: 20, g: 40, b: 60, a: 255 } },
            GradientStop { position: number(1.), color: Color { r: 80, g: 100, b: 120, a: 128 } },
        ]),
    }
}

#[test]
fn the_strongest_stops_of_a_gradient_get_the_alpha_of_its_opacity() {
    let alphas = |stops: Vec<u8>, scaled: Vec<u8>| -> Vec<u8> {
        let (mut doc, _page, rect) = doc_with_rect();
        let mut shown = gradient();
        shown.stops = Arc::new(
            stops
                .iter()
                .map(|a| GradientStop {
                    position: number(0.5),
                    color: Color { r: 1, g: 2, b: 3, a: *a },
                })
                .collect(),
        );
        let mut vector = rectangle(200., 100.);
        vector.fills = FillList::one(Fill::Gradient { gradient: shown, blend: BlendMode::Normal });
        node_mut(&mut doc, rect).data = Arc::new(NodeData::Vector(vector));
        let edit = PaintEditValue::Opacity { percent: number(50.), alpha: 128, scaled };
        let operations = paint_operations(&doc, rect, 0, &edit);
        apply(&mut doc, &operations);
        match current_paint(&doc, rect, false, 0) {
            Some(Fill::Gradient { gradient, .. }) => {
                gradient.stops.iter().map(|stop| stop.color.a).collect()
            }
            _ => panic!("fill is a gradient"),
        }
    };
    assert_eq!(alphas(vec![0, 0], vec![9, 9]), vec![128, 128]);
    assert_eq!(alphas(vec![200, 100, 0, 200], vec![1, 64, 7, 3]), vec![128, 64, 0, 128]);
}

#[test]
fn gradient_opacity_scales_stop_alpha_in_one_undo_step() {
    let (mut doc, _page, rect) = doc_with_rect();
    let mut vector = rectangle(200., 100.);
    vector.fills =
        FillList::one(Fill::Gradient { gradient: gradient(), blend: BlendMode::Normal });
    node_mut(&mut doc, rect).data = Arc::new(NodeData::Vector(vector));
    let scaled = |alpha: u8| (f64::from(alpha) * 0.5).round() as u8;
    let edit = PaintEditValue::Opacity {
        percent: number(50.),
        alpha: scaled(255),
        scaled: vec![scaled(255), scaled(128)],
    };
    let operations = paint_operations(&doc, rect, 0, &edit);
    assert_eq!(operations.len(), 1);
    apply(&mut doc, &operations);
    let Some(Fill::Gradient { gradient: edited, .. }) = current_paint(&doc, rect, false, 0) else {
        panic!("fill is a gradient");
    };
    assert_eq!(edited.stops[0].color.a, 128);
    assert_eq!(edited.stops[1].color.a, 64);
    undo(&mut doc, &operations);
    assert_eq!(
        current_paint(&doc, rect, false, 0),
        Some(&Fill::Gradient { gradient: gradient(), blend: BlendMode::Normal })
    );
}

#[derive(Clone, Copy)]
struct Projection {
    m11: f64,
    m12: f64,
    m21: f64,
    m22: f64,
    tx: f64,
    ty: f64,
}

impl Projection {
    fn point(self, x: f64, y: f64) -> Point {
        Point {
            x: number(self.m11 * x + self.m21 * y + self.tx),
            y: number(self.m12 * x + self.m22 * y + self.ty),
        }
    }

    fn flipped_horizontal(self) -> Projection {
        Projection {
            m11: -self.m11,
            m12: -self.m12,
            tx: self.tx + self.m11,
            ty: self.ty + self.m12,
            ..self
        }
    }
}

fn projection(gradient: &Gradient) -> Projection {
    let (primary, secondary, center) = match gradient.geometry {
        GradientGeometry::Linear { start, end } => {
            let axis = [value(end.x) - value(start.x), value(end.y) - value(start.y)];
            let center = [
                (value(start.x) + value(end.x)) / 2.,
                (value(start.y) + value(end.y)) / 2.,
            ];
            ([axis[1], -axis[0]], axis, center)
        }
        GradientGeometry::Angular { center, start_angle } => {
            let (sine, cosine) = value(start_angle).sin_cos();
            ([cosine, sine], [-sine, cosine], [value(center.x), value(center.y)])
        }
        _ => panic!("not projected here"),
    };
    Projection {
        m11: primary[0],
        m12: primary[1],
        m21: secondary[0],
        m22: secondary[1],
        tx: center[0] - (primary[0] + secondary[0]) * 0.5,
        ty: center[1] - (primary[1] + secondary[1]) * 0.5,
    }
}

fn angular_facts(at: Projection, stops: &Vec<GradientStop>) -> GradientFacts {
    GradientFacts {
        finite: true,
        geometry: Some(GradientGeometry::Angular {
            center: at.point(0.5, 0.5),
            start_angle: number(at.m12.atan2(at.m11)),
        }),
        mirrored: if at.m11 * at.m22 - at.m21 * at.m12 < 0. {
            Some(stops.iter().map(|stop| number(1. - value(stop.position))).collect())
        } else {
            None
        },
    }
}

#[test]
fn gradient_transform_projection_preserves_geometry_and_angular_flip() {
    let linear = gradient();
    let projected = projection(&linear);
    let facts = GradientFacts {
        finite: true,
        geometry: Some(GradientGeometry::Linear {
            start: projected.point(0.5, 0.),
            end: projected.point(0.5, 1.),
        }),
        mirrored: None,
    };
    let rebuilt = gradient_from_design(&linear.stops, &facts).expect("linear projection is valid");
    assert_eq!(rebuilt, linear);

    let angular = Gradient {
        geometry: GradientGeometry::Angular {
            center: Point { x: number(0.5), y: number(0.5) },
            start_angle: number(0.),
        },
        stops: linear.stops.clone(),
    };
    let flip = projection(&angular).flipped_horizontal();
    let flipped = gradient_from_design(&angular.stops, &angular_facts(flip, &angular.stops))
        .expect("angular flip is valid");
    assert_eq!(flipped.stops[0].color, angular.stops[1].color);
    let flip = projection(&flipped).flipped_horizontal();
    let restored = gradient_from_design(&flipped.stops, &angular_facts(flip, &flipped.stops))
        .expect("second angular flip is valid");
    let GradientGeometry::Angular { start_angle, .. } = restored.geometry else {
        panic!("angular kind is preserved");
    };
    assert!(value(start_angle).abs() < 1e-5);
    assert_eq!(restored.stops, angular.stops);
}

#[test]
fn a_gradient_needs_two_stops_and_a_finite_run() {
    let facts = |finite: bool| GradientFacts {
        finite,
        geometry: Some(gradient().geometry),
        mirrored: None,
    };
    let stops = vec![
        GradientStop { position: number(-0.5), color: rgb(1, 1, 1) },
        GradientStop { position: number(1.5), color: rgb(2, 2, 2) },
    ];
    let built = gradient_from_design(&stops, &facts(true)).expect("a gradient");
    assert_eq!(value(built.stops[0].position), 0.);
    assert_eq!(value(built.stops[1].position), 1.);
    assert_eq!(gradient_from_design(&stops, &facts(false)), None);
    assert_eq!(gradient_from_design(&stops[..1].to_vec(), &facts(true)), None);
    let lost = vec![
        GradientStop { position: number(f64::NAN), color: rgb(1, 1, 1) },
        GradientStop { position: number(1.), color: rgb(2, 2, 2) },
    ];
    assert_eq!(gradient_from_design(&lost, &facts(true)), None);
}

fn doc_with_text() -> (Doc, NodeId) {
    let (mut doc, page, _) = doc_with_rect();
    let id = insert(
        &mut doc,
        node(50, NodeData::Text(text()), Some(page), translation(0., 0.)),
    );
    (doc, id)
}

fn style(doc: &Doc, id: NodeId) -> TextStyle {
    match &*doc.get(id).expect("text exists").data {
        NodeData::Text(text) => text.style.copy(),
        _ => panic!("text node"),
    }
}

#[test]
fn text_fill_opacity_edits_glyph_alpha_and_undoes() {
    let (mut doc, id) = doc_with_text();
    let edit = PaintEditValue::Opacity {
        percent: number(40.),
        alpha: (255. * 0.4_f64).round() as u8,
        scaled: Vec::new(),
    };
    let operations = paint_operations(&doc, id, 0, &edit);
    assert_eq!(operations.len(), 1);
    apply(&mut doc, &operations);
    assert_eq!(style(&doc, id).color.a, 102);
    undo(&mut doc, &operations);
    assert_eq!(style(&doc, id).color.a, 255);

    let operations =
        paint_operations(&doc, id, 0, &PaintEditValue::BlendMode(BlendMode::Multiply));
    assert_eq!(operations.len(), 1);
    apply(&mut doc, &operations);
    assert_eq!(doc.get(id).expect("text exists").blend_mode, BlendMode::Multiply);
    undo(&mut doc, &operations);
    assert_eq!(doc.get(id).expect("text exists").blend_mode, BlendMode::Normal);
}

fn font<'a>(
    catalog: &'a [FontFamily],
    family: &str,
    style: &str,
) -> Option<(&'a FontFamily, &'a FontStyle)> {
    let family = catalog.iter().find(|known| known.id == family)?;
    Some((family, family.styles.iter().find(|known| known.id == style)?))
}

#[test]
fn font_catalog_deduplicates_names_and_exposes_italic() {
    let system = ["Inter", "inter", ".Hidden Font"].map(str::to_string).to_vec();
    let catalog = design_font_catalog(&system, &Vec::new());
    let inter =
        catalog.iter().filter(|family| family.name.eq_ignore_ascii_case("Inter")).count();
    assert_eq!(inter, 1);
    assert!(!catalog.iter().any(|family| family.name.starts_with('.')));
    assert!(font(&catalog, "Inter", "italic").is_some_and(|(_, style)| style.italic));
    assert!(font(&catalog, "Inter", "regular").is_some_and(|(_, style)| !style.italic));
    let names: Vec<_> = font_styles().into_iter().map(|style| style.name).collect();
    assert_eq!(names, ["Regular", "Italic"]);
}

#[test]
fn applying_a_font_and_text_decoration_is_undoable() {
    let (mut doc, id) = doc_with_text();
    let catalog = design_font_catalog(&Vec::new(), &vec!["Source Serif 4".to_string()]);
    let (family, cut) =
        font(&catalog, "Source Serif 4", "italic").expect("bundled family and style");
    let font = font_apply_operations(&doc, id, &family.name, cut.italic, None);
    apply(&mut doc, &font);
    let edit = property_operations(
        &doc,
        id,
        DesignProperty::TextDecoration,
        &DesignValue::TextDecoration(TextDecoration::Underline),
        &property_facts(),
    );
    let Some(PropertyEdit::Operations(underline)) = edit else {
        panic!("underline is supported");
    };
    apply(&mut doc, &underline);
    assert_eq!(style(&doc, id).font_family, "Source Serif 4");
    assert!(style(&doc, id).italic);
    assert!(style(&doc, id).underline);
    undo(&mut doc, &underline);
    assert!(!style(&doc, id).underline);
    undo(&mut doc, &font);
    assert_eq!(style(&doc, id).font_family, "Inter");
    assert!(!style(&doc, id).italic);
}

#[test]
fn a_layer_with_no_box_reports_no_value_rather_than_a_zero() {
    let states = boxless_geometry_states(false);
    assert_eq!(
        states.iter().map(|state| state.property).collect::<Vec<_>>(),
        vec![DesignProperty::X, DesignProperty::Y, DesignProperty::Width, DesignProperty::Height]
    );
    for state in &states {
        assert_eq!(state.value, StateValue::Unset, "{:?} renders as no value", state.property);
        assert_eq!(
            state.read_only,
            Some(ReadOnlyReason::NoSize),
            "{:?} refuses an edit",
            state.property
        );
    }
}

#[test]
fn a_layer_with_a_box_keeps_its_geometry_fields_live() {
    assert!(
        boxless_geometry_states(true).is_empty(),
        "a layer whose box is derivable keeps editable X/Y/W/H"
    );
}

#[test]
fn blend_modes_survive_the_way_there_and_back() {
    for mode in [BlendMode::Normal, BlendMode::Multiply, BlendMode::Luminosity] {
        assert_eq!(engine_blend_mode(design_blend_mode(mode)), Some(mode));
    }
    assert_eq!(engine_blend_mode(DesignBlendMode::LinearBurn), None);
}

#[test]
fn every_cell_of_the_alignment_grid_is_found_again() {
    for mode in [LayoutMode::Horizontal, LayoutMode::Vertical] {
        for (x, y) in [(0, 0), (1, 2), (2, 1), (2, 2)] {
            let mut layout = AutoLayout::plain(mode);
            set_auto_layout_alignment(&mut layout, x, y);
            assert_eq!(auto_layout_alignment(&layout), (x, y));
        }
    }
}

#[test]
fn a_cancelled_edit_leaves_no_trace() {
    let (doc, _page, rect) = doc_with_rect();
    let before = doc.copy();
    let mut open = open(doc, true);
    let mut adapter = DesignAdapter::new();
    let fade = |doc: &Doc| {
        vec![Operation::SetOpacity {
            id: rect,
            old: doc.get(rect).expect("rect").opacity,
            new: number(0.25),
        }]
    };
    adapter.phased_edit(&mut open, rect, EditPhase::Begin, false, fade);
    adapter.phased_edit(&mut open, rect, EditPhase::Preview, false, fade);
    let seen = |open: &Option<OpenDocument>| {
        value(open.as_ref().expect("document").doc.get(rect).expect("rect").opacity)
    };
    assert_eq!(seen(&open), 0.25);
    adapter.phased_edit(&mut open, rect, EditPhase::Cancel, false, fade);
    assert_eq!(open.as_ref().expect("document").doc, before);
    assert!(adapter.session.is_none());
    adapter.phased_edit(&mut open, rect, EditPhase::Begin, false, fade);
    adapter.phased_edit(&mut open, rect, EditPhase::Commit, false, fade);
    assert_eq!(seen(&open), 0.25);
}

#[test]
fn exports_get_ids_of_their_own_and_a_cancel_restores_them() {
    let mut adapter = DesignAdapter::new();
    adapter.add_export();
    adapter.add_export();
    assert_eq!(adapter.exports.len(), 3);
    assert_ne!(adapter.exports[0].id, adapter.exports[1].id);
    assert_ne!(adapter.exports[1].id, adapter.exports[2].id);
    let id = adapter.exports[0].id.clone();
    let first = adapter.exports[0].copy();
    let mut changed = first.settings.copy();
    changed.format = ExportFormat::Svg;
    adapter.change_export(&id, changed.copy(), EditPhase::Begin);
    adapter.change_export(&id, changed, EditPhase::Preview);
    assert_eq!(adapter.exports[0].settings.format, ExportFormat::Svg);
    let kept = first.settings.copy();
    adapter.change_export(&id, kept, EditPhase::Cancel);
    assert_eq!(adapter.exports[0], first);
    adapter.remove_export(&id);
    assert_eq!(adapter.export_requests().len(), 2);
}

#[test]
fn a_stale_target_is_told_from_the_selection() {
    let a = NodeId { raw: 1 };
    let b = NodeId { raw: 2 };
    let target = DesignTarget::Nodes(vec![Some(a), Some(b)]);
    assert!(target_matches_selection(&target, &vec![a, b]));
    assert!(!target_matches_selection(&target, &vec![a]));
    assert!(!target_matches_selection(&DesignTarget::Nodes(vec![None]), &vec![a]));
}

fn stroke(width: f64) -> Stroke {
    Stroke {
        paint: Fill::solid(rgb(0, 0, 0)),
        width: number(width),
        align: StrokeAlign::Center,
        cap: StrokeCap::Butt,
        join: StrokeJoin::Miter,
        miter_limit: number(4.),
        dash: Arc::new(Vec::new()),
        per_side: None,
    }
}

#[test]
fn list_edits_move_append_and_remove() {
    let (mut doc, _page, rect) = doc_with_rect();
    let mut vector = rectangle(200., 100.);
    vector.fills =
        FillList::of(vec![Fill::solid(rgb(1, 1, 1)), Fill::solid(rgb(2, 2, 2))]);
    node_mut(&mut doc, rect).data = Arc::new(NodeData::Vector(vector));
    let operations = fill_move_operations(&doc, rect, 0, 1);
    apply(&mut doc, &operations);
    assert_eq!(current_paint(&doc, rect, false, 1), Some(&Fill::solid(rgb(1, 1, 1))));
    let operations = stroke_list_operations(&doc, rect, ListEdit::Append, &stroke(2.));
    apply(&mut doc, &operations);
    assert!(current_paint(&doc, rect, true, 0).is_some());
    let operations =
        stroke_list_operations(&doc, rect, ListEdit::Remove { index: 0 }, &stroke(2.));
    apply(&mut doc, &operations);
    assert!(current_paint(&doc, rect, true, 0).is_none());
    assert!(
        stroke_list_operations(&doc, rect, ListEdit::Remove { index: 5 }, &stroke(2.)).is_empty()
    );
}
