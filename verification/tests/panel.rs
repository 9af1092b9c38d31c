use std::sync::Arc;

use fig_viewer::design_actions::{
    video_command, ActionEffect, ActionFacts, Collection, DesignAction, FontChoice, PaintRequest,
    TargetedLeaf, TransformOperation, VideoAction, VideoCommand,
};
use fig_viewer::design_effects::EffectKind;
use fig_viewer::design_host::HostEdit;
use fig_viewer::design_properties::{
    FieldNumber, InspectorField, PropertyEdit, PropertyFacts,
};
use fig_viewer::design_header::{
    boolean_operands, HeaderCommand, HeaderEffect, HeaderFacts, OfferedActions,
};
use fig_viewer::design_media::{
    design_video_preview_state, Playback, PreviewState, upload_kind, video_size_allowed, CropAction, CropEffect, CropFacts,
    MediaKind, ScaledCrop,
};
use fig_viewer::design_paint_view::{CropPlace, TurnFacts};
use fig_viewer::design_paints::QuarterTurn;
use fig_viewer::design_lists::{
    component_prop_value, current_prop_kind, page_background_operations, PropInput,
};
use fig_viewer::design_node::{
    variable_label, Capabilities, CapabilityFlags, MultiSection, ParentLayout,
};
use fig_viewer::design_session::{
    export_message, DesignAdapter, EchoFacts, EditPhase,
};
use fig_viewer::design_snapshot::{
    build_design_view_data, Inspection, PageBackground, SnapshotFacts,
};
use fig_viewer::design_targets::{
    AddLayoutFacts, ArrangeOperation, ArrangeStep, DesignTarget, TargetFacts,
};
use fig_viewer::design_values::{
    DesignProperty, DesignValue, LetterSpacing, LineHeight, TextDecoration,
};
use fig_viewer::document::{
    BitmapNode, CanvasNode, ComponentDef, ComponentPropDef, ComponentPropKind, Doc, GroupNode,
    IndexKey, InstanceNode, MaskType, NodeData,
    NodeFlags, PathData, PathSegment, PixelSize, Shadow, ShadowKind, TextAlign, TextAutoResize,
    StyleRun, TextNode, TextStyle, TextVAlign, Transform, VarValue, VectorNode,
};
use fig_viewer::ids::{AssetId, ComponentId, ComponentPropId, DocId, NodeId};
use fig_viewer::layer_context_menu::{
    media_size_allowed, Choice, ContextEffect, ContextFacts, StyleClipboard,
};
use fig_viewer::layer_components::FlattenFacts;
use fig_viewer::layer_context_ops::{root_of_component, LayerAction, LayoutFacts};
use fig_viewer::layer_errors::LayerError;
use fig_viewer::layer_outlines::{
    local_outline, stroke_geometry, OutlinePlan, RingCut, SideRing, StrokePlan,
};
use fig_viewer::layer_simple::SimpleFacts;
use fig_viewer::layer_media::{media_slot, replace_media, MediaSlot, NewMedia};
use fig_viewer::operations::Operation;
use fig_viewer::pages::{
    find_hit, page_id, pages_view_data, search_pages, ElementKind, HitField, Page, PageRoot,
    SearchRequest, SearchScope,
};
use fig_viewer::paint::{
    BlendMode, Color, CropWindow, Fill, FillList, ImageAdjust, ImageFitMode, Quad, Size, Stroke, StrokeAlign,
    StrokeCap, StrokeJoin,
};
use fig_viewer::panel::{DocChange, EmptyItem, FantaDesignPanel, LayerEdit, OpenDocument};
use fig_viewer::scalar::Scalar;

fn number(value: f64) -> Scalar {
    Scalar::of(value.to_bits())
}

fn size(width: f64, height: f64) -> Size {
    Size { width: number(width), height: number(height) }
}

fn translation(x: f64, y: f64) -> Transform {
    Transform {
        m11: number(1.),
        m12: number(0.),
        m21: number(0.),
        m22: number(1.),
        tx: number(x),
        ty: number(y),
    }
}

fn black() -> Color {
    Color { r: 0, g: 0, b: 0, a: 255 }
}

fn node(raw: u128, data: NodeData) -> CanvasNode {
    CanvasNode {
        id: NodeId { raw },
        parent: None,
        index: IndexKey::initial(),
        name: String::new(),
        flags: NodeFlags { hidden: false, locked: false, isolated_blend: false },
        transform: translation(0., 0.),
        opacity: number(1.),
        blend_mode: BlendMode::Normal,
        is_mask: false,
        mask_type: MaskType::Alpha,
        effects: Arc::new(Vec::new()),
        blurs: Arc::new(Vec::new()),
        layout_child: None,
        bindings: Arc::new(Vec::new()),
        meta: serde_json::Value::Null,
        data: Arc::new(data),
    }
}

fn rectangle_path(width: f64, height: f64) -> PathData {
    PathData {
        segments: Arc::new(vec![
            PathSegment::Move { x: number(0.), y: number(0.) },
            PathSegment::Line { x: number(width), y: number(0.) },
            PathSegment::Line { x: number(width), y: number(height) },
            PathSegment::Line { x: number(0.), y: number(height) },
            PathSegment::Close,
        ]),
        rectangle: true,
    }
}

fn vector() -> VectorNode {
    VectorNode::outlined(
        rectangle_path(40., 20.),
        FillList::one(Fill::solid(black())),
        Arc::new(Vec::new()),
    )
}

fn rect(raw: u128) -> CanvasNode {
    node(raw, NodeData::Vector(vector()))
}

fn group(raw: u128) -> CanvasNode {
    node(raw, NodeData::Group(GroupNode::plain()))
}

fn sized_group(raw: u128, width: f64, height: f64) -> CanvasNode {
    node(
        raw,
        NodeData::Group(GroupNode { clip_size: Some(size(width, height)), ..GroupNode::plain() }),
    )
}

fn insert(doc: &mut Doc, mut node: CanvasNode, parent: Option<NodeId>) -> NodeId {
    node.parent = parent;
    node.index = doc.next_child_index(parent);
    let id = node.id;
    doc.apply(&Operation::CreateNode { node: Arc::new(node) }).expect("insert fixture");
    id
}

fn node_mut(doc: &mut Doc, id: NodeId) -> &mut CanvasNode {
    doc.nodes.iter_mut().find(|node| node.id == id).expect("node")
}

fn fixture() -> (Doc, NodeId, NodeId) {
    let mut doc = Doc {
        id: DocId { raw: 1 },
        nodes: Vec::new(),
        pages: Vec::new(),
        active_page: None,
        selection: Vec::new(),
        components: Vec::new(),
        sets: Vec::new(),
        tracks: Vec::new(),
    };
    let page = insert(&mut doc, group(10), None);
    doc.pages.push(page);
    let id = insert(&mut doc, rect(20), Some(page));
    (doc, page, id)
}

fn panel(doc: Doc, editable: bool) -> FantaDesignPanel {
    FantaDesignPanel {
        open: Some(OpenDocument { doc, editable, history: Vec::new() }),
        empty: None,
        context_picker: None,
        notices: Vec::new(),
    }
}

fn doc_of(panel: &FantaDesignPanel) -> &Doc {
    &panel.open.as_ref().expect("document").doc
}

fn mask(id: NodeId) -> Operation {
    Operation::SetMask { id, old: false, new: true }
}

#[test]
fn a_layer_command_is_applied_as_a_whole_or_not_at_all() {
    let (doc, _page, id) = fixture();
    let before = doc.copy();
    let mut panel = panel(doc, true);
    let gone = NodeId { raw: 999 };
    let change =
        panel.apply_layer_command("Mask", |_: &Doc| Ok(vec![mask(id), mask(gone)]));
    assert_eq!(change, DocChange::Unchanged);
    assert_eq!(doc_of(&panel), &before);
    assert_eq!(panel.notices.len(), 1);
    let change = panel.apply_layer_command("Mask", |_: &Doc| Ok(vec![mask(id)]));
    assert_eq!(change, DocChange::Content);
    assert!(doc_of(&panel).get(id).expect("node").is_mask);
    let change =
        panel.apply_layer_command("Mask", |_: &Doc| Err(LayerError::LockedOrPage));
    assert_eq!(change, DocChange::Unchanged);
    assert_eq!(panel.notices.len(), 2);
}

#[test]
fn a_read_only_document_stays_as_it_is() {
    let (doc, _page, id) = fixture();
    let before = doc.copy();
    let mut panel = panel(doc, false);
    let change = panel.apply_layer_command("Mask", |_: &Doc| Ok(vec![mask(id)]));
    assert_eq!(change, DocChange::Unchanged);
    assert_eq!(doc_of(&panel), &before);
}

#[test]
fn a_command_leaves_its_own_selection_or_what_is_still_there() {
    let (doc, page, id) = fixture();
    let mut panel = panel(doc, true);
    let change = panel.apply_layer_command_select("Mask", |_: &Doc| {
        Ok(LayerEdit { operations: vec![mask(id)], selection: Some(vec![page, id]) })
    });
    assert_eq!(change, DocChange::Content);
    assert_eq!(doc_of(&panel).selection, vec![page, id]);
    let change = panel.apply_layer_command("Delete", |doc: &Doc| {
        Ok(vec![Operation::DeleteNode { node: Arc::new(doc.get(id).expect("node").copy()) }])
    });
    assert_eq!(change, DocChange::Content);
    assert_eq!(doc_of(&panel).selection, vec![page]);
}

#[test]
fn every_error_has_a_message_of_its_own() {
    let errors = [
        LayerError::LockedOrPage,
        LayerError::SelectedLocked,
        LayerError::Locked,
        LayerError::NotGroup,
        LayerError::NotInstance,
        LayerError::PageGone,
        LayerError::NotImage,
        LayerError::BadRatio,
        LayerError::BadCrop,
        LayerError::MissingLayer,
        LayerError::DocumentChanged,
        LayerError::CopyPropertiesFirst,
        LayerError::OtherDocument,
    ];
    let mut texts: Vec<String> = errors.iter().map(|error| error.message()).collect();
    assert!(texts.iter().all(|text| !text.is_empty()));
    texts.sort();
    texts.dedup();
    assert_eq!(texts.len(), errors.len());
    assert_eq!(LayerError::Host("As it is".to_string()).message(), "As it is");
}

fn window() -> CropWindow {
    CropWindow { x: number(0.), y: number(0.), width: number(1.), height: number(1.) }
}

fn context_facts(clipboard: Option<StyleClipboard>) -> ContextFacts {
    ContextFacts {
        selection_roots: Vec::new(),
        page_known: true,
        moved: Vec::new(),
        layout: LayoutFacts {
            local_size: None,
            framed: Err(LayerError::Host("nothing to frame".to_string())),
            framed_size: None,
        },
        window: window(),
        fits: true,
        fractions: window(),
        height: number(1.),
        clipboard,
    }
}

#[test]
fn a_copied_look_is_pasted_in_its_own_document_only() {
    let (mut doc, page, id) = fixture();
    let mut faded = rect(30);
    faded.opacity = number(0.5);
    let faded = insert(&mut doc, faded, Some(page));
    let mut panel = panel(doc, true);
    let effect = panel.run_context_choice(faded, Choice::CopyProperties, &context_facts(None));
    let ContextEffect::CopyStyle(style) = effect else {
        panic!("a look is copied");
    };
    let foreign = StyleClipboard { document: DocId { raw: 2 }, node: style.node.copy() };
    panel.run_context_choice(id, Choice::PasteProperties, &context_facts(Some(foreign)));
    assert_eq!(doc_of(&panel).get(id).expect("node").opacity, number(1.));
    panel.run_context_choice(id, Choice::PasteProperties, &context_facts(None));
    assert_eq!(panel.notices.len(), 2);
    let effect =
        panel.run_context_choice(id, Choice::PasteProperties, &context_facts(Some(style)));
    assert_eq!(effect, ContextEffect::Done(DocChange::Content));
    assert_eq!(doc_of(&panel).get(id).expect("node").opacity, number(0.5));
}

#[test]
fn a_picker_belongs_to_its_document() {
    let (doc, _page, id) = fixture();
    let mut panel = panel(doc, true);
    panel.open_context_picker(id, LayerAction::MoreLayoutOptions);
    let picker = panel.context_picker.as_ref().expect("a picker");
    assert_eq!(picker.node, id);
    assert!(!picker.choices.is_empty());
    panel.open.as_mut().expect("document").doc.id = DocId { raw: 5 };
    let effect = panel.activate_choice(Choice::CopySvg, None, &context_facts(None));
    assert_eq!(effect, ContextEffect::Done(DocChange::Unchanged));
    panel.open_context_picker(id, LayerAction::CopyPasteAs);
    panel.dismiss_context_picker();
    assert!(panel.context_picker.is_none());
}

#[test]
fn media_is_replaced_by_media_of_its_kind() {
    let (mut doc, page, id) = fixture();
    let picture = insert(
        &mut doc,
        node(
            30,
            NodeData::Bitmap(BitmapNode {
                asset: AssetId { raw: 7 },
                natural_size: PixelSize { width: 4, height: 2 },
                local_size: size(40., 20.),
                crop: Some(window()),
                fit: ImageFitMode::Fill,
                tint: None,
            }),
        ),
        Some(page),
    );
    assert_eq!(media_slot(doc.get(picture).expect("picture")), MediaSlot::Image);
    let new = NewMedia::Image {
        asset: AssetId { raw: 8 },
        natural_size: PixelSize { width: 2, height: 2 },
    };
    let document = doc.id;
    assert!(replace_media(&mut doc, document, picture, &new).is_ok());
    assert!(matches!(
        &*doc.get(picture).expect("picture").data,
        NodeData::Bitmap(bitmap) if bitmap.asset == AssetId { raw: 8 }
    ));
    assert_eq!(
        replace_media(&mut doc, DocId { raw: 9 }, picture, &new),
        Err(LayerError::DocumentChanged)
    );
    let video = NewMedia::Video {
        asset: AssetId { raw: 10 },
        natural_size: PixelSize { width: 2, height: 2 },
        duration_us: 1,
        poster: None,
    };
    assert_eq!(
        replace_media(&mut doc, document, picture, &video),
        Err(LayerError::MediaTypeChanged)
    );
    assert!(replace_media(&mut doc, document, id, &video).is_err());
    assert!(media_size_allowed(1).is_ok());
    assert_eq!(media_size_allowed(u64::MAX), Err(LayerError::MediaTooLarge));
}

fn text(content: &str) -> NodeData {
    NodeData::Text(TextNode {
        content: content.to_string(),
        style: TextStyle {
            font_family: "Inter".to_string(),
            italic: false,
            weight: 400,
            size_px: number(16.),
            line_height: number(1.2),
            line_height_auto_percent: None,
            letter_spacing: number(0.),
            underline: false,
            strikethrough: false,
            color: black(),
        },
        style_runs: Arc::new(Vec::new()),
        align: TextAlign::Left,
        vertical_align: TextVAlign::Top,
        auto_resize: TextAutoResize::Fixed,
        local_size: size(100., 30.),
    })
}

fn request(query: &str, kinds: Vec<ElementKind>) -> SearchRequest {
    SearchRequest {
        query: query.to_string(),
        match_case: false,
        whole_words: false,
        scope: SearchScope::AllPages,
        element_kinds: kinds,
    }
}

#[test]
fn a_search_finds_names_and_contents_and_counts_kinds() {
    let (mut doc, page, id) = fixture();
    node_mut(&mut doc, id).name = "Welcome card".to_string();
    let mut greeting = node(31, text("You are WELCOME"));
    greeting.name = "Greeting".to_string();
    let greeting = insert(&mut doc, greeting, Some(page));
    let pages = vec![Page {
        root: Some(PageRoot { id: page, text: "root".to_string() }),
        name: "Page 1".to_string(),
        hidden: false,
    }];
    let order = vec![ElementKind::Text, ElementKind::Shape];
    let all = search_pages(&doc, &pages, Some(0), &request("welcome", Vec::new()), &order);
    assert_eq!(all.total, 2);
    let hit = find_hit(&all.hits, greeting).expect("the text is found");
    assert_eq!(hit.field, HitField::TextContent);
    assert_eq!(find_hit(&all.hits, id).expect("the card").field, HitField::Name);
    let texts = vec![ElementKind::Text];
    let only = search_pages(&doc, &pages, Some(0), &request("welcome", texts), &order);
    assert_eq!(only.items.len(), 1);
    assert_eq!(only.items[0].id, greeting);
    let none = search_pages(&doc, &pages, Some(0), &request("", Vec::new()), &order);
    assert_eq!(none.total, 0);
}

#[test]
fn pages_are_listed_with_stable_ids() {
    let (doc, page, _) = fixture();
    assert_eq!(page_id(Some("root"), 3), "root");
    assert_eq!(page_id(None, 12), "synthetic:12");
    let pages = vec![
        Page {
            root: Some(PageRoot { id: page, text: "root".to_string() }),
            name: "Page 1".to_string(),
            hidden: false,
        },
        Page { root: None, name: "Loose".to_string(), hidden: false },
    ];
    let items = pages_view_data(&doc, &pages);
    assert_eq!(
        items.iter().map(|item| item.id.as_str()).collect::<Vec<_>>(),
        vec!["root", "synthetic:1"]
    );
}

fn action_facts() -> ActionFacts {
    ActionFacts {
        page_root: None,
        page_index: None,
        new_stroke: Stroke {
            paint: Fill::solid(black()),
            width: number(1.),
            align: StrokeAlign::Center,
            cap: StrokeCap::Butt,
            join: StrokeJoin::Miter,
            miter_limit: number(4.),
            dash: Arc::new(Vec::new()),
            per_side: None,
        },
        new_shadow: Shadow {
            kind: ShadowKind::Drop,
            color: black(),
            blur: number(4.),
            spread: number(0.),
            offset_x: number(0.),
            offset_y: number(4.),
            show_behind_node: false,
        },
        new_blur_radius: number(4.),
        plays_video: true,
    }
}

fn no_host(_: &Doc, _: HostEdit) -> Vec<Operation> {
    Vec::new()
}

/// A host that writes the fields of opacity and rotation, and aligns to the left.
fn host(doc: &Doc, edit: HostEdit) -> Vec<Operation> {
    match edit {
        HostEdit::Property {
            id,
            edit:
                PropertyEdit::Field {
                    field: InspectorField::Opacity,
                    number: FieldNumber::Plain(percent),
                },
        } => vec![Operation::SetOpacity {
            id,
            old: doc.get(id).expect("layer").opacity,
            new: number(f64::from_bits(percent.bits) / 100.),
        }],
        HostEdit::Property {
            id,
            edit: PropertyEdit::Field { field: InspectorField::X, number: FieldNumber::Plain(x) },
        } => {
            let old = doc.get(id).expect("layer").transform;
            vec![Operation::SetTransform { id, old, new: Transform { tx: x, ..old } }]
        }
        HostEdit::Property {
            id,
            edit:
                PropertyEdit::Field {
                    field: InspectorField::Rotation,
                    number: FieldNumber::Plain(degrees),
                },
        } => {
            assert_eq!(degrees, number(90.));
            let old = doc.get(id).expect("layer").transform;
            let new = Transform {
                m11: number(0.),
                m12: number(1.),
                m21: number(-1.),
                m22: number(0.),
                ..old
            };
            vec![Operation::SetTransform { id, old, new }]
        }
        HostEdit::Arrange(ArrangeStep::Left) => doc
            .selection
            .iter()
            .map(|id| {
                let old = doc.get(*id).expect("layer").transform;
                Operation::SetTransform { id: *id, old, new: Transform { tx: number(10.), ..old } }
            })
            .collect(),
        _ => Vec::new(),
    }
}

#[test]
fn actions_reach_the_document_they_name() {
    let (doc, _page, id) = fixture();
    let mut panel = panel(doc, true);
    let mut adapter = DesignAdapter::new();
    let red = Color { r: 255, g: 0, b: 0, a: 255 };
    let paint = DesignAction::PaintEdit {
        node: Some(id),
        collection: Collection::Fill,
        index: 0,
        request: PaintRequest::Color(red),
        fraction: number(1.),
        phase: EditPhase::Commit,
    };
    adapter.handle_design_action(&mut panel, paint, &action_facts(), no_host);
    assert!(matches!(
        &*doc_of(&panel).get(id).expect("node").data,
        NodeData::Vector(vector) if vector.fills.fills() == vec![Fill::solid(red)]
    ));
    let shadow = DesignAction::EffectAdd { node: Some(id), kind: EffectKind::DropShadow };
    let effect = adapter.handle_design_action(&mut panel, shadow, &action_facts(), no_host);
    assert_eq!(effect, ActionEffect::Applied(true));
    assert_eq!(doc_of(&panel).get(id).expect("node").effects.len(), 1);
    let stroke =
        DesignAction::ItemAdd { node: Some(id), collection: Collection::Stroke };
    adapter.handle_design_action(&mut panel, stroke, &action_facts(), no_host);
    assert!(matches!(
        &*doc_of(&panel).get(id).expect("node").data,
        NodeData::Vector(vector) if vector.strokes.len() == 1
    ));
    let before = doc_of(&panel).copy();
    let stale = DesignAction::Arrange {
        target: DesignTarget::Nodes(vec![Some(NodeId { raw: 999 })]),
        operation: ArrangeOperation::AlignLeft,
        spans: None,
    };
    adapter.handle_design_action(&mut panel, stale, &action_facts(), no_host);
    assert_eq!(doc_of(&panel), &before);
}

fn snapshot_facts() -> SnapshotFacts {
    SnapshotFacts {
        node_text: "node".to_string(),
        section: None,
        preset: Capabilities {
            sections: Vec::new(),
            flags: CapabilityFlags {
                aspect_ratio_lock: false,
                constraints: false,
                arrange: false,
                transforms: true,
                resize_to_fit: false,
                add_auto_layout: true,
                auto_layout_container: false,
                grid_auto_layout: false,
                layout_guides: false,
                pass_through_blend: false,
                clip_content: false,
                fill: true,
                stroke: true,
                effects: true,
                layer_appearance: true,
                visibility: true,
            },
        },
        multi: MultiSection {
            count: 2,
            x: Some(number(0.)),
            y: None,
            width: None,
            height: None,
            rotation_degrees: None,
        },
        variables: Vec::new(),
        page_root: Some("page".to_string()),
        page_background: PageBackground::Solid(black()),
        default_background: black(),
        actions: OfferedActions {
            create_component: true,
            use_as_mask: true,
            flatten: true,
            convert_to_frame: false,
            convert_to_section: false,
        },
    }
}

#[test]
fn the_inspector_shows_page_layer_or_selection() {
    let (mut doc, page, id) = fixture();
    let other = insert(&mut doc, rect(30), Some(page));
    let facts = snapshot_facts();
    let nothing = build_design_view_data(&doc, &Vec::new(), Some(0), true, None, &facts);
    assert_eq!(nothing.inspection, Inspection::Page);
    assert!(nothing.header.is_none());
    let both = build_design_view_data(&doc, &vec![id, other], Some(0), true, None, &facts);
    assert!(matches!(
        both.inspection,
        Inspection::Multiple { parent: ParentLayout::Canvas, .. }
            | Inspection::Multiple { parent: ParentLayout::Freeform, .. }
    ));
    assert_eq!(both.header.expect("a header").nodes, vec![id, other]);
}

#[test]
fn component_properties_take_values_of_their_kind() {
    assert_eq!(
        component_prop_value(Some(ComponentPropKind::Bool), &PropInput::Boolean(true)),
        Some(Some(VarValue::Boolean { value: true }))
    );
    assert_eq!(component_prop_value(Some(ComponentPropKind::Bool), &PropInput::Reset), Some(None));
    assert_eq!(component_prop_value(Some(ComponentPropKind::Bool), &PropInput::Other), None);
    let typed = PropInput::Text { text: "Hi".to_string(), number: None, color: None };
    assert_eq!(
        component_prop_value(Some(ComponentPropKind::Text), &typed),
        Some(Some(VarValue::Text { value: "Hi".to_string() }))
    );
}

#[test]
fn a_page_takes_a_background() {
    let (mut doc, page, _) = fixture();
    let operations = page_background_operations(&doc, page, black());
    doc.apply_all(&operations).expect("apply");
    assert!(matches!(
        &*doc.get(page).expect("page").data,
        NodeData::Group(group) if group.background == Some(Fill::solid(black()))
            || group.background_fills.fills() == vec![Fill::solid(black())]
    ));
}

#[test]
fn video_previews_and_exports_say_what_they_do() {
    assert_eq!(video_command(VideoAction::Play), VideoCommand::Play);
    assert_eq!(
        video_command(VideoAction::Seek { seconds: number(2.) }),
        VideoCommand::Seek(number(2.))
    );
    let one = export_message(&vec!["a.png".to_string()], &None);
    let two = export_message(&vec!["a.png".to_string(), "b.png".to_string()], &None);
    assert!(!one.is_empty());
    assert_ne!(one, two);
}

fn host_error() -> LayerError {
    LayerError::Host("not prepared".to_string())
}

fn layout_facts() -> LayoutFacts {
    LayoutFacts { local_size: None, framed: Err(host_error()), framed_size: None }
}

fn header_facts() -> HeaderFacts {
    HeaderFacts {
        actions: OfferedActions {
            create_component: true,
            use_as_mask: true,
            flatten: true,
            convert_to_frame: false,
            convert_to_section: false,
        },
        label: "Use as mask".to_string(),
        simple: SimpleFacts {
            selection_roots: Vec::new(),
            selection_bounds: true,
            reflected: Vec::new(),
            local_box: None,
            shifted: translation(0., 0.),
            shifted_children: vec![translation(0., 0.); 4],
            master_size: None,
            component: Vec::new(),
            framed: Err(host_error()),
            grouped: Err(host_error()),
            flatten: FlattenFacts {
                detached: Vec::new(),
                detached_behind: Vec::new(),
                outline: Err(host_error()),
            },
            outlines: Vec::new(),
            layout: layout_facts(),
        },
        grouped: Err(host_error()),
        component: Vec::new(),
        made: None,
    }
}

#[test]
fn header_commands_run_on_the_selection_they_were_made_for() {
    let (mut doc, page, id) = fixture();
    let other = insert(&mut doc, rect(30), Some(page));
    doc.selection = vec![id];
    let mut panel = panel(doc, true);
    let stale = DesignTarget::Nodes(vec![Some(other)]);
    let effect =
        panel.run_header_command(&stale, HeaderCommand::UseAsMask, Some(page), &header_facts());
    assert_eq!(effect, HeaderEffect::Rejected);
    let target = DesignTarget::Nodes(vec![Some(id)]);
    let effect =
        panel.run_header_command(&target, HeaderCommand::UseAsMask, Some(page), &header_facts());
    assert_eq!(effect, HeaderEffect::Edited(DocChange::Content));
    assert!(doc_of(&panel).get(id).expect("node").is_mask);
    let effect = panel.run_header_command(
        &target,
        HeaderCommand::SelectMatchingLayers,
        Some(page),
        &header_facts(),
    );
    assert_eq!(effect, HeaderEffect::Selected(true));
    assert_eq!(doc_of(&panel).selection.len(), 2);
    assert_eq!(boolean_operands(doc_of(&panel), &vec![other, id]), vec![id, other]);
}

#[test]
fn a_thumbnail_is_the_only_one() {
    let (mut doc, page, id) = fixture();
    let other = insert(&mut doc, rect(30), Some(page));
    let mut panel = panel(doc, true);
    let marked = |panel: &FantaDesignPanel| -> Vec<NodeId> {
        doc_of(panel)
            .nodes
            .iter()
            .filter(|node| node.meta.get("fanta_project_thumbnail").is_some())
            .map(|node| node.id)
            .collect()
    };
    assert_eq!(panel.set_layer_thumbnail(id, Some(size(1., 1.))), DocChange::Content);
    assert_eq!(marked(&panel), vec![id]);
    assert_eq!(panel.set_layer_thumbnail(other, Some(size(1., 1.))), DocChange::Content);
    assert_eq!(marked(&panel), vec![other]);
    let meta = &doc_of(&panel).get(other).expect("node").meta;
    assert_eq!(meta["fanta_project_thumbnail"].as_bool(), Some(true));
    assert_eq!(panel.set_layer_thumbnail(id, Some(size(0., 1.))), DocChange::Unchanged);
    assert_eq!(marked(&panel), vec![other]);
}

#[test]
fn pasted_layers_need_a_clipboard() {
    let (doc, _page, id) = fixture();
    let mut panel = panel(doc, true);
    assert_eq!(panel.paste_layer_to_replace(None), DocChange::Unchanged);
    assert_eq!(panel.notices.len(), 1);
    assert_eq!(panel.paste_layer_to_replace(Some(Ok(vec![mask(id)]))), DocChange::Content);
    assert_eq!(panel.media_prompt(NodeId { raw: 999 }), None);
    let media = NewMedia::Image {
        asset: AssetId { raw: 8 },
        natural_size: PixelSize { width: 2, height: 2 },
    };
    assert_eq!(
        panel.finish_replace_media(DocId { raw: 3 }, id, &media),
        Err(vec![AssetId { raw: 8 }])
    );
}

#[test]
fn a_crop_needs_a_picture() {
    let (doc, _page, id) = fixture();
    assert_eq!(upload_kind(&doc, id, false, 0), MediaKind::Image);
    let mut open = Some(OpenDocument { doc, editable: true, history: Vec::new() });
    let mut adapter = DesignAdapter::new();
    let facts = CropFacts {
        turn: TurnFacts { quarter: QuarterTurn::Upright, exactly_none: true, at_quarter: true },
        source_aspect: None,
        scaled: ScaledCrop {
            width: number(1.),
            height: number(1.),
            window: translation(0., 0.),
        },
        valid: false,
        filters: None,
    };
    let place = CropPlace { node: id, is_stroke: false, index: 0 };
    let effect = adapter.crop_action(&mut open, place, CropAction::Begin, &facts);
    assert!(!matches!(effect, CropEffect::Refresh { .. }));
    assert!(adapter.crop.is_none());
    assert!(video_size_allowed(1));
    assert!(!video_size_allowed(u64::MAX));
}

#[test]
fn a_document_with_two_layers_of_one_id_is_told() {
    let (mut doc, _page, id) = fixture();
    assert!(doc.is_well_formed());
    let twin = doc.get(id).expect("node").copy();
    doc.nodes.push(twin);
    assert!(!doc.is_well_formed());
    assert_eq!(root_of_component(&doc, ComponentId { raw: 1 }), None);
    assert_eq!(variable_label(&Some("Accent".to_string())), "Accent");
}

#[test]
fn an_outline_is_put_together_from_what_shows() {
    let (mut doc, page, id) = fixture();
    assert_eq!(local_outline(&doc, id), OutlinePlan::Path(id));
    assert_eq!(
        local_outline(&doc, NodeId { raw: 999 }),
        OutlinePlan::Unavailable(LayerError::MissingLayer)
    );
    let frame = insert(&mut doc, sized_group(30, 40., 20.), Some(page));
    assert_eq!(
        local_outline(&doc, frame),
        OutlinePlan::Unavailable(LayerError::NoGeometry)
    );
    let mut hidden = rect(31);
    hidden.flags.hidden = true;
    insert(&mut doc, hidden, Some(frame));
    let shown = insert(&mut doc, rect(32), Some(frame));
    let OutlinePlan::Combined { base, parts, .. } = local_outline(&doc, frame) else {
        panic!("the frame combines its children");
    };
    assert_eq!(base, None);
    assert_eq!(parts.len(), 1);
    assert_eq!(parts[0].child, shown);
    assert_eq!(parts[0].plan, OutlinePlan::Path(shown));
}

#[test]
fn only_borders_with_a_width_are_outlined() {
    let mut stroke = action_facts().new_stroke;
    assert_eq!(
        stroke_geometry(&stroke),
        StrokePlan::Ring { cut: RingCut::Whole, width: number(1.) }
    );
    stroke.align = StrokeAlign::Inside;
    stroke.per_side = Some(Quad {
        first: number(0.),
        second: number(2.),
        third: number(-1.),
        fourth: number(3.),
    });
    assert_eq!(
        stroke_geometry(&stroke),
        StrokePlan::Sides {
            cut: RingCut::Inside,
            sides: vec![
                SideRing { side: 1, width: number(2.) },
                SideRing { side: 3, width: number(3.) }
            ]
        }
    );
}

#[test]
fn a_preview_is_ready_once_it_has_a_length() {
    let playback = |duration_us: u64| {
        Some(Playback { error: None, duration_us, current_us: 5, playing: true })
    };
    assert_eq!(design_video_preview_state(None, true, playback(9)), PreviewState::Loading);
    assert_eq!(design_video_preview_state(None, false, None), PreviewState::Loading);
    assert_eq!(design_video_preview_state(None, false, playback(0)), PreviewState::Loading);
    assert_eq!(
        design_video_preview_state(None, false, playback(9)),
        PreviewState::Ready { duration_us: 9, current_us: 5, playing: true }
    );
    assert_eq!(
        design_video_preview_state(Some("broken".to_string()), true, None),
        PreviewState::Failed("broken".to_string())
    );
}

fn property_facts(fraction: f64) -> PropertyFacts {
    PropertyFacts {
        swept: number(0.),
        miter_limit: number(4.),
        fraction: number(fraction),
        rough_size: None,
        shown_size: None,
    }
}

fn undo(open: &mut OpenDocument) {
    let step = open.history.pop().expect("a step");
    for operation in step.operations.iter().rev() {
        open.doc.apply(&operation.inverse()).expect("undo");
    }
}

fn history(panel: &FantaDesignPanel) -> usize {
    panel.open.as_ref().expect("document").history.len()
}

fn opacity_edit(id: NodeId, percent: f64, phase: EditPhase) -> DesignAction {
    DesignAction::PropertyEdit {
        node: Some(id),
        property: DesignProperty::Opacity,
        value: DesignValue::Number(number(percent)),
        facts: property_facts(1.),
        phase,
    }
}

fn typography(id: NodeId, range: bool, property: DesignProperty, value: DesignValue) -> DesignAction {
    DesignAction::TypographyChange {
        node: Some(id),
        range,
        property,
        value,
        facts: property_facts(1.5),
    }
}

fn typography_edit(id: NodeId, property: DesignProperty, value: DesignValue) -> DesignAction {
    DesignAction::TypographyEdit {
        node: Some(id),
        range: false,
        property,
        value,
        facts: property_facts(1.5),
        phase: EditPhase::Commit,
    }
}

#[test]
fn typography_property_actions_update_the_text_layer() {
    let (mut doc, page, _) = fixture();
    let id = insert(&mut doc, node(31, text("Hello")), Some(page));
    let NodeData::Text(mut styled) = doc.get(id).expect("text").data.copy() else {
        panic!("text node");
    };
    styled.style_runs =
        Arc::new(vec![StyleRun { start: 0, end: 5, style: styled.style.copy() }]);
    node_mut(&mut doc, id).data = Arc::new(NodeData::Text(styled));
    doc.selection = vec![id];
    let mut panel = panel(doc, true);
    let mut adapter = DesignAdapter::new();
    let facts = action_facts();
    let size = typography(id, false, DesignProperty::FontSize, DesignValue::Number(number(28.)));
    assert_eq!(
        adapter.handle_design_action(&mut panel, size, &facts, no_host),
        ActionEffect::Applied(true)
    );
    let weight =
        typography(id, false, DesignProperty::FontWeight, DesignValue::Number(number(600.)));
    adapter.handle_design_action(&mut panel, weight, &facts, no_host);
    let height = typography_edit(
        id,
        DesignProperty::LineHeight,
        DesignValue::LineHeight(LineHeight::Percent(number(150.))),
    );
    adapter.handle_design_action(&mut panel, height, &facts, no_host);
    let spacing = typography_edit(
        id,
        DesignProperty::LetterSpacing,
        DesignValue::LetterSpacing(LetterSpacing::Pixels(number(2.))),
    );
    adapter.handle_design_action(&mut panel, spacing, &facts, no_host);
    let underline = typography_edit(
        id,
        DesignProperty::TextDecoration,
        DesignValue::TextDecoration(TextDecoration::Underline),
    );
    adapter.handle_design_action(&mut panel, underline, &facts, no_host);
    let range = typography(id, true, DesignProperty::FontSize, DesignValue::Number(number(99.)));
    assert_eq!(
        adapter.handle_design_action(&mut panel, range, &facts, no_host),
        ActionEffect::TextRangeUnavailable
    );
    let NodeData::Text(text) = &*doc_of(&panel).get(id).expect("text exists").data else {
        panic!("text node");
    };
    assert_eq!(text.style.size_px, number(28.));
    assert_eq!(text.style.weight, 600);
    assert_eq!(text.style.line_height, number(1.5));
    assert_eq!(text.style.letter_spacing, number(2.));
    assert!(text.style.underline);
    assert_eq!(text.style_runs.len(), 1);
    assert_eq!(text.style_runs[0].style.size_px, number(28.));
    assert_eq!(text.style_runs[0].style.weight, 600);
    assert_eq!(text.style_runs[0].style.line_height, number(1.5));
    assert_eq!(text.style_runs[0].style.letter_spacing, number(2.));
    assert!(text.style_runs[0].style.underline);
    assert_eq!(history(&panel), 5);
}

#[test]
fn a_scrub_that_is_cancelled_leaves_nothing_behind() {
    let (mut doc, _page, id) = fixture();
    doc.selection = vec![id];
    let before = doc.copy();
    let mut panel = panel(doc, true);
    let mut adapter = DesignAdapter::new();
    let facts = action_facts();
    let begin = opacity_edit(id, 100., EditPhase::Begin);
    adapter.handle_design_action(&mut panel, begin, &facts, host);
    let preview = opacity_edit(id, 25., EditPhase::Preview);
    adapter.handle_design_action(&mut panel, preview, &facts, host);
    assert_eq!(doc_of(&panel).get(id).expect("node").opacity, number(0.25));
    let cancel = opacity_edit(id, 25., EditPhase::Cancel);
    assert_eq!(
        adapter.handle_design_action(&mut panel, cancel, &facts, host),
        ActionEffect::Phase(Some(false))
    );
    assert_eq!(doc_of(&panel), &before);
    assert_eq!(history(&panel), 0);
    for phase in [EditPhase::Begin, EditPhase::Preview, EditPhase::Commit] {
        adapter.handle_design_action(&mut panel, opacity_edit(id, 50., phase), &facts, host);
    }
    assert_eq!(doc_of(&panel).get(id).expect("node").opacity, number(0.5));
    assert_eq!(history(&panel), 1);
    undo(panel.open.as_mut().expect("document"));
    assert_eq!(doc_of(&panel), &before);
}

#[test]
fn stale_multi_node_targets_are_rejected_wholesale() {
    let (mut doc, page, id) = fixture();
    let second = insert(&mut doc, rect(30), Some(page));
    doc.selection = vec![id, second];
    let mut panel = panel(doc, true);
    let mut adapter = DesignAdapter::new();
    let facts = action_facts();
    let leaf = |target: Vec<Option<NodeId>>| DesignAction::Targeted {
        target: DesignTarget::Nodes(target),
        leaf: TargetedLeaf::PropertyChange {
            property: DesignProperty::Opacity,
            value: DesignValue::Number(number(40.)),
            facts: TargetFacts {
                bounds: None,
                moved: Vec::new(),
                properties: vec![property_facts(1.), property_facts(1.)],
            },
        },
    };
    let opacity = |panel: &FantaDesignPanel, id: NodeId| -> f64 {
        f64::from_bits(doc_of(panel).get(id).expect("node exists").opacity.bits)
    };
    adapter.handle_design_action(&mut panel, leaf(vec![Some(second), Some(id)]), &facts, host);
    for one in [id, second] {
        assert!((opacity(&panel, one) - 1.).abs() < 1e-6, "a stale target changes no member");
    }
    adapter.handle_design_action(&mut panel, leaf(vec![Some(id), Some(second)]), &facts, host);
    for one in [id, second] {
        assert!((opacity(&panel, one) - 0.4).abs() < 1e-6, "a valid target applies to all");
    }
    assert_eq!(history(&panel), 1);
    undo(panel.open.as_mut().expect("document"));
    for one in [id, second] {
        assert!((opacity(&panel, one) - 1.).abs() < 1e-6, "one undo restores every member");
    }
}

#[test]
fn aligning_a_three_node_selection_is_one_undo_step() {
    let (mut doc, page, _) = fixture();
    let mut ids = Vec::new();
    for (raw, x) in [(41, 10.), (42, 50.), (43, 120.)] {
        let mut square = rect(raw);
        square.transform = translation(x, 0.);
        ids.push(insert(&mut doc, square, Some(page)));
    }
    doc.selection = ids.clone();
    let mut panel = panel(doc, true);
    let mut adapter = DesignAdapter::new();
    let align = DesignAction::Arrange {
        target: DesignTarget::Nodes(ids.iter().map(|id| Some(*id)).collect()),
        operation: ArrangeOperation::AlignLeft,
        spans: None,
    };
    adapter.handle_design_action(&mut panel, align, &action_facts(), host);
    for id in &ids {
        assert_eq!(doc_of(&panel).get(*id).expect("square").transform.tx, number(10.));
    }
    undo(panel.open.as_mut().expect("document"));
    for (id, x) in ids.iter().zip([10., 50., 120.]) {
        assert_eq!(doc_of(&panel).get(*id).expect("square").transform.tx, number(x));
    }
    assert_eq!(history(&panel), 0);
    let tidy = DesignAction::Arrange {
        target: DesignTarget::Nodes(ids.iter().map(|id| Some(*id)).collect()),
        operation: ArrangeOperation::TidyUp,
        spans: None,
    };
    assert_eq!(
        adapter.handle_design_action(&mut panel, tidy, &action_facts(), host),
        ActionEffect::TidyUnavailable
    );
}

#[test]
fn controls_that_are_not_wired_say_so_once() {
    let (doc, _page, id) = fixture();
    let mut panel = panel(doc, true);
    let mut adapter = DesignAdapter::new();
    let facts = action_facts();
    let unknown = |phase: EditPhase| DesignAction::PropertyEdit {
        node: Some(id),
        property: DesignProperty::Opacity,
        value: DesignValue::Bool(true),
        facts: property_facts(1.),
        phase,
    };
    for phase in [EditPhase::Begin, EditPhase::Preview] {
        assert_eq!(
            adapter.handle_design_action(&mut panel, unknown(phase), &facts, host),
            ActionEffect::Phase(None)
        );
    }
    assert_eq!(
        adapter.handle_design_action(&mut panel, unknown(EditPhase::Commit), &facts, host),
        ActionEffect::UnwiredPhase(Some(false))
    );
    let at_once = DesignAction::PropertyChange {
        node: Some(id),
        property: DesignProperty::Opacity,
        value: DesignValue::Bool(true),
        facts: property_facts(1.),
    };
    assert_eq!(
        adapter.handle_design_action(&mut panel, at_once, &facts, host),
        ActionEffect::Unwired
    );
    assert_eq!(history(&panel), 0);
}

#[test]
fn a_transform_that_is_not_finite_is_left_out() {
    let (doc, _page, id) = fixture();
    let before = doc.copy();
    let mut panel = panel(doc, true);
    let mut adapter = DesignAdapter::new();
    let place = |x: f64, phase: EditPhase| DesignAction::PropertyEdit {
        node: Some(id),
        property: DesignProperty::X,
        value: DesignValue::Number(number(x)),
        facts: property_facts(1.),
        phase,
    };
    for phase in [EditPhase::Begin, EditPhase::Preview, EditPhase::Commit] {
        let action = place(f64::INFINITY, phase);
        adapter.handle_design_action(&mut panel, action, &action_facts(), host);
        assert_eq!(doc_of(&panel), &before);
    }
    assert_eq!(history(&panel), 0);
    adapter.handle_design_action(&mut panel, place(7., EditPhase::Commit), &action_facts(), host);
    assert_eq!(doc_of(&panel).get(id).expect("node").transform.tx, number(7.));
}

#[test]
fn layers_turn_flip_and_change_their_font_through_actions() {
    let (mut doc, page, id) = fixture();
    let words = insert(&mut doc, node(31, text("Hello")), Some(page));
    doc.selection = vec![id];
    let mut panel = panel(doc, true);
    let mut adapter = DesignAdapter::new();
    let facts = action_facts();
    let target = || DesignTarget::Nodes(vec![Some(id)]);
    let turn = DesignAction::Transform {
        target: target(),
        operation: TransformOperation::RotateClockwise { degrees: vec![Some(number(90.))] },
    };
    adapter.handle_design_action(&mut panel, turn, &facts, host);
    assert_eq!(doc_of(&panel).get(id).expect("node").transform.m12, number(1.));
    let mirrored = Transform { m11: number(-1.), ..translation(40., 0.) };
    let flip = DesignAction::Transform {
        target: target(),
        operation: TransformOperation::Flip { mirrored: Some(vec![Some(mirrored)]) },
    };
    adapter.handle_design_action(&mut panel, flip, &facts, host);
    assert_eq!(doc_of(&panel).get(id).expect("node").transform, mirrored);
    let choice = || FontChoice { family: "Lora".to_string(), italic: true, weight: Some(700) };
    let font = |range: bool| DesignAction::FontApply {
        node: Some(words),
        range,
        local: true,
        font: Some(choice()),
    };
    assert_eq!(
        adapter.handle_design_action(&mut panel, font(true), &facts, host),
        ActionEffect::ApplyFont { node: words, font: choice() }
    );
    adapter.handle_design_action(&mut panel, font(false), &facts, host);
    let NodeData::Text(text) = &*doc_of(&panel).get(words).expect("text").data else {
        panic!("text node");
    };
    assert_eq!(text.style.font_family, "Lora");
    assert_eq!(text.style.weight, 700);
    assert!(text.style.italic);
    assert_eq!(history(&panel), 3);
}

#[test]
fn commands_give_up_the_gesture_under_way() {
    let (mut doc, page, id) = fixture();
    doc.selection = vec![id];
    let before = doc.copy();
    let mut panel = panel(doc, true);
    let mut adapter = DesignAdapter::new();
    let facts = action_facts();
    let scrub = |adapter: &mut DesignAdapter, panel: &mut FantaDesignPanel| {
        for phase in [EditPhase::Begin, EditPhase::Preview] {
            adapter.handle_design_action(panel, opacity_edit(id, 25., phase), &facts, host);
        }
        assert_eq!(doc_of(panel).get(id).expect("node").opacity, number(0.25));
    };
    scrub(&mut adapter, &mut panel);
    let change = adapter.run_layer_command(&mut panel, "Mask", |doc: &Doc| {
        assert_eq!(doc, &before);
        Ok(LayerEdit { operations: vec![mask(id)], selection: None })
    });
    assert_eq!(change, DocChange::Content);
    assert!(adapter.session.is_none());
    assert_eq!(doc_of(&panel).get(id).expect("node").opacity, number(1.));
    scrub(&mut adapter, &mut panel);
    let header = DesignAction::Header {
        target: DesignTarget::Nodes(vec![Some(id)]),
        command: HeaderCommand::UseAsMask,
        page: Some(page),
        facts: header_facts(),
    };
    assert_eq!(
        adapter.handle_design_action(&mut panel, header, &facts, host),
        ActionEffect::Header(HeaderEffect::Edited(DocChange::Content))
    );
    assert_eq!(doc_of(&panel).get(id).expect("node").opacity, number(1.));
    scrub(&mut adapter, &mut panel);
    assert_eq!(adapter.set_thumbnail(&mut panel, id, Some(size(1., 1.))), DocChange::Content);
    assert_eq!(doc_of(&panel).get(id).expect("node").opacity, number(1.));
    scrub(&mut adapter, &mut panel);
    assert!(adapter.ask_for_media(&mut panel, id).is_some());
    assert_eq!(doc_of(&panel).get(id).expect("node").opacity, number(1.));
    scrub(&mut adapter, &mut panel);
    let change = adapter.paste_to_replace(&mut panel, Some(Ok(vec![Operation::SetMask {
        id,
        old: false,
        new: true,
    }])));
    assert_eq!(change, DocChange::Content);
    assert_eq!(doc_of(&panel).get(id).expect("node").opacity, number(1.));
    scrub(&mut adapter, &mut panel);
    let effect =
        adapter.run_choice(&mut panel, id, Choice::PasteProperties, &context_facts(None));
    assert_eq!(effect, ContextEffect::Done(DocChange::Unchanged));
    assert_eq!(doc_of(&panel).get(id).expect("node").opacity, number(1.));
    scrub(&mut adapter, &mut panel);
    let drop = DesignAction::MediaDrop {
        node: Some(id),
        collection: Collection::Fill,
        index: 0,
        kind: MediaKind::Image,
        source: None,
    };
    adapter.handle_design_action(&mut panel, drop, &facts, host);
    assert_eq!(doc_of(&panel).get(id).expect("node").opacity, number(1.));
    let layout = DesignAction::AddAutoLayout {
        target: DesignTarget::Nodes(vec![Some(page)]),
        facts: AddLayoutFacts {
            selection_roots: Vec::new(),
            single: layout_facts(),
            grouped: Err(host_error()),
            after: layout_facts(),
        },
    };
    assert_eq!(
        adapter.handle_design_action(&mut panel, layout, &facts, host),
        ActionEffect::Layout(DocChange::Unchanged)
    );
    scrub(&mut adapter, &mut panel);
    panel.open_context_picker(id, LayerAction::CopyPasteAs);
    let effect = adapter.activate(&mut panel, Choice::CopyProperties, None, &context_facts(None));
    let ContextEffect::CopyStyle(style) = effect else {
        panic!("a look is copied");
    };
    assert_eq!(style.node.opacity, number(0.25));
    assert!(panel.context_picker.is_none() && adapter.session.is_some());
    panel.open_context_picker(id, LayerAction::CopyPasteAs);
    let facts_with_style = context_facts(Some(style));
    let effect = adapter.activate(&mut panel, Choice::PasteProperties, None, &facts_with_style);
    assert_eq!(effect, ContextEffect::Done(DocChange::Content));
    assert!(panel.context_picker.is_none() && adapter.session.is_none());
    assert_eq!(doc_of(&panel).get(id).expect("node").opacity, number(0.25));
}

#[test]
fn a_crop_is_previewed_where_its_window_can_be_applied() {
    let (mut doc, _page, id) = fixture();
    let mut picture = vector();
    picture.fills = FillList::one(Fill::Image {
        asset: AssetId { raw: 5 },
        mode: ImageFitMode::Stretch,
        crop: Some(window()),
        scale: None,
        rotation: None,
        adjust: ImageAdjust::none(),
        opacity: number(1.),
        blend: BlendMode::Normal,
    });
    node_mut(&mut doc, id).data = Arc::new(NodeData::Vector(picture));
    let mut panel = panel(doc, true);
    let mut adapter = DesignAdapter::new();
    let half = Transform { m11: number(0.5), m22: number(0.5), ..translation(0.25, 0.25) };
    let step = |action: CropAction, source_aspect: Option<Scalar>| DesignAction::MediaCrop {
        node: Some(id),
        collection: Collection::Fill,
        index: 0,
        action,
        facts: CropFacts {
            turn: TurnFacts { quarter: QuarterTurn::Upright, exactly_none: true, at_quarter: true },
            source_aspect,
            scaled: ScaledCrop { width: number(0.5), height: number(0.5), window: half },
            valid: true,
            filters: Some(ImageAdjust::none()),
        },
    };
    let tool = |commit: bool| {
        let (transform, zoom, aspect_ratio) = (translation(0., 0.), number(2.), 0);
        if commit {
            CropAction::Commit { transform, zoom, aspect_ratio }
        } else {
            CropAction::Preview { transform, zoom, aspect_ratio }
        }
    };
    let facts = action_facts();
    let begin = step(CropAction::Begin, Some(number(2.)));
    assert_eq!(
        adapter.handle_design_action(&mut panel, begin, &facts, no_host),
        ActionEffect::Crop(CropEffect::Refresh { ended: None })
    );
    let lost = step(tool(false), None);
    assert_eq!(
        adapter.handle_design_action(&mut panel, lost, &facts, no_host),
        ActionEffect::Crop(CropEffect::NotApplicable)
    );
    let preview = step(tool(false), Some(number(2.)));
    adapter.handle_design_action(&mut panel, preview, &facts, no_host);
    let shown = |panel: &FantaDesignPanel| match &*doc_of(panel).get(id).expect("node").data {
        NodeData::Vector(vector) => match &vector.fills.fills()[0] {
            Fill::Image { crop, .. } => *crop,
            _ => None,
        },
        _ => None,
    };
    let cropped = CropWindow {
        x: number(0.25),
        y: number(0.25),
        width: number(0.5),
        height: number(0.5),
    };
    assert_eq!(shown(&panel), Some(cropped));
    assert_eq!(history(&panel), 0);
    let commit = step(tool(true), Some(number(2.)));
    assert_eq!(
        adapter.handle_design_action(&mut panel, commit, &facts, no_host),
        ActionEffect::Crop(CropEffect::Refresh { ended: Some(true) })
    );
    assert_eq!(shown(&panel), Some(cropped));
    assert_eq!(history(&panel), 1);
    assert!(adapter.crop.is_none());
}

#[test]
fn the_same_state_is_echoed_once() {
    let (mut doc, _page, id) = fixture();
    doc.selection = vec![id];
    let facts = EchoFacts {
        snapshot: snapshot_facts(),
        previous_page: None,
        previews: Vec::new(),
        plays_video: false,
    };
    let mut adapter = DesignAdapter::new();
    let first =
        adapter.refresh(&doc, true, 1, Some(0), &Vec::new(), &facts).expect("an echo");
    assert_eq!(first.selection, vec![id]);
    assert!(!first.text_selection);
    assert!(first.fill_actions);
    assert!(first.send_fonts);
    assert_eq!(first.export_target, DesignTarget::Nodes(vec![Some(id)]));
    assert_eq!(first.exports, adapter.exports);
    assert_eq!(first.paint_types.len(), 5);
    assert!(first.view.header.is_some());
    assert!(adapter.refresh(&doc, true, 1, Some(0), &Vec::new(), &facts).is_none());
    assert!(adapter.refresh(&doc, true, 2, Some(0), &Vec::new(), &facts).is_some());
    doc.selection = Vec::new();
    let page = adapter.refresh(&doc, true, 2, Some(0), &Vec::new(), &facts).expect("an echo");
    assert_eq!(page.export_target, DesignTarget::Page("page".to_string()));
    assert_eq!(page.view.inspection, Inspection::Page);
    assert!(page.view.page.is_some());
    assert!(!page.send_fonts);
}

fn names(panel: &FantaDesignPanel) -> Vec<Option<String>> {
    let open = panel.open.as_ref().expect("document");
    open.history.iter().map(|step| step.name.clone()).collect()
}

#[test]
fn a_command_is_a_step_under_its_name() {
    let (doc, _page, id) = fixture();
    let mut panel = panel(doc, true);
    let change = panel.apply_layer_command("Use as mask", |_: &Doc| Ok(vec![mask(id)]));
    assert_eq!(change, DocChange::Content);
    assert_eq!(names(&panel), [Some("Use as mask".to_string())]);
    let mut adapter = DesignAdapter::new();
    adapter.handle_design_action(
        &mut panel,
        opacity_edit(id, 25., EditPhase::Commit),
        &action_facts(),
        host,
    );
    assert_eq!(names(&panel), [Some("Use as mask".to_string()), None]);
}

#[test]
fn an_item_without_a_document_says_that_it_is_read_only() {
    let id = NodeId { raw: 20 };
    for (empty, notices) in [
        (None, Vec::new()),
        (Some(EmptyItem { editable: true }), Vec::new()),
        (
            Some(EmptyItem { editable: false }),
            vec![
                "Mask: This document is read-only".to_string(),
                "Toggle layout wrapping: This document is read-only".to_string(),
                "Set project thumbnail: This document is read-only".to_string(),
            ],
        ),
    ] {
        let mut panel =
            FantaDesignPanel { open: None, empty, context_picker: None, notices: Vec::new() };
        let change = panel.apply_layer_command("Mask", |_: &Doc| Ok(vec![mask(id)]));
        assert_eq!(change, DocChange::Unchanged);
        let effect = panel.run_context_choice(id, Choice::ToggleWrap, &context_facts(None));
        assert_eq!(effect, ContextEffect::Done(DocChange::Unchanged));
        assert_eq!(panel.set_layer_thumbnail(id, Some(size(1., 1.))), DocChange::Unchanged);
        assert_eq!(panel.notices, notices);
    }
}

#[test]
fn media_for_an_item_without_a_document_is_handed_back() {
    let media = NewMedia::Image {
        asset: AssetId { raw: 8 },
        natural_size: PixelSize { width: 2, height: 2 },
    };
    for (editable, notice) in [
        (true, "Replace media: The document is closed"),
        (false, "Replace media: This document is read-only"),
    ] {
        let mut panel = FantaDesignPanel {
            open: None,
            empty: Some(EmptyItem { editable }),
            context_picker: None,
            notices: Vec::new(),
        };
        assert_eq!(
            panel.finish_replace_media(DocId { raw: 1 }, NodeId { raw: 20 }, &media),
            Err(vec![AssetId { raw: 8 }])
        );
        assert_eq!(panel.notices, [notice]);
    }
}

#[test]
fn nothing_is_rendered_without_a_document() {
    let (doc, _page, id) = fixture();
    let mut shown = panel(doc, false);
    assert_eq!(
        shown.run_context_choice(id, Choice::CopySvg, &context_facts(None)),
        ContextEffect::CopyRendered { node: id, svg: true }
    );
    shown.open = None;
    assert_eq!(
        shown.run_context_choice(id, Choice::CopyPng, &context_facts(None)),
        ContextEffect::Done(DocChange::Unchanged)
    );
    assert_eq!(shown.notices, ["Copy: The document is closed"]);
}

#[test]
fn a_request_for_media_gives_up_what_is_under_way_without_a_document() {
    let (mut doc, _page, id) = fixture();
    doc.selection = vec![id];
    let mut panel = panel(doc, true);
    let mut adapter = DesignAdapter::new();
    let facts = action_facts();
    for phase in [EditPhase::Begin, EditPhase::Preview] {
        adapter.handle_design_action(&mut panel, opacity_edit(id, 25., phase), &facts, host);
    }
    assert!(adapter.session.is_some());
    panel.open = None;
    let request = DesignAction::MediaSource {
        node: Some(id),
        collection: Collection::Fill,
        index: 0,
        upload: true,
        source: Some(AssetId { raw: 7 }),
    };
    let effect = adapter.handle_design_action(&mut panel, request, &facts, host);
    assert_eq!(effect, ActionEffect::Nothing);
    assert!(adapter.session.is_none());
}

#[test]
fn a_property_has_the_kind_of_the_component_that_the_instance_resolves_to() {
    let (mut doc, page, plain) = fixture();
    let prop = ComponentPropId { raw: 5 };
    let definition = |raw: u128, kind: ComponentPropKind| ComponentDef {
        id: ComponentId { raw },
        root: plain,
        name: "Button".to_string(),
        props: Arc::new(vec![ComponentPropDef { id: prop, kind }]),
    };
    doc.components.push(definition(1, ComponentPropKind::Bool));
    doc.components.push(definition(2, ComponentPropKind::Text));
    let data = NodeData::Instance(InstanceNode {
        component: ComponentId { raw: 1 },
        overrides: Arc::new(Vec::new()),
        prop_values: Arc::new(Vec::new()),
        derived: Arc::new(Vec::new()),
        local_size: size(1., 1.),
    });
    let instance = insert(&mut doc, node(40, data), Some(page));
    let resolved = Some(ComponentId { raw: 2 });
    let kind = |id: NodeId, resolved: Option<ComponentId>, prop: ComponentPropId| {
        current_prop_kind(&doc, id, resolved, prop)
    };
    assert_eq!(kind(instance, resolved, prop), Some(ComponentPropKind::Text));
    assert_eq!(kind(instance, None, prop), None);
    assert_eq!(kind(instance, Some(ComponentId { raw: 3 }), prop), None);
    assert_eq!(kind(instance, resolved, ComponentPropId { raw: 6 }), None);
    assert_eq!(kind(plain, resolved, prop), None);
}
