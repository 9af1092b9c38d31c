use std::sync::Arc;

use fig_viewer::document::{
    BitmapNode, CanvasNode, ComponentDef, Doc, GroupNode, IndexKey, InstanceNode, LayoutMode,
    MaskType, NodeData, NodeFlags, PathData, PathSegment, PixelSize, Transform, VectorNode,
};
use fig_viewer::ids::{AssetId, ComponentId, DocId, NodeId};
use fig_viewer::layer_components::{delete_layers, dependent_instances, FlattenFacts, OutlineFacts};
use fig_viewer::layer_context_ops::{
    auto_layout, created_roots, crop, crop_rectangle, is_section, paste_properties, toggle_wrap,
    Grouped, LayerAction, LayoutFacts,
};
use fig_viewer::layer_errors::LayerError;
use fig_viewer::layer_moves::{move_to_page, stack};
use fig_viewer::layer_simple::{simple, SimpleFacts};
use fig_viewer::operations::Operation;
use fig_viewer::paint::{
    BlendMode, Color, CropWindow, Fill, FillList, ImageFitMode, Size, Stroke, StrokeAlign,
    StrokeCap, StrokeJoin,
};
use fig_viewer::scalar::Scalar;

fn number(value: f64) -> Scalar {
    Scalar::of(value.to_bits())
}

fn value(number: Scalar) -> f64 {
    f64::from_bits(number.bits)
}

fn size(width: f64, height: f64) -> Size {
    Size { width: number(width), height: number(height) }
}

fn translation(x: f64, y: f64) -> Transform {
    Transform {
        m11: number(1.),
        m12: number(0.),
        m21: number(0.),
        m22: number(1.),
        tx: number(x),
        ty: number(y),
    }
}

fn black() -> Color {
    Color { r: 0, g: 0, b: 0, a: 255 }
}

fn node(raw: u128, data: NodeData) -> CanvasNode {
    CanvasNode {
        id: NodeId { raw },
        parent: None,
        index: IndexKey::initial(),
        name: String::new(),
        flags: NodeFlags { hidden: false, locked: false, isolated_blend: false },
        transform: translation(0., 0.),
        opacity: number(1.),
        blend_mode: BlendMode::Normal,
        is_mask: false,
        mask_type: MaskType::Alpha,
        effects: Arc::new(Vec::new()),
        blurs: Arc::new(Vec::new()),
        layout_child: None,
        bindings: Arc::new(Vec::new()),
        meta: serde_json::Value::Null,
        data: Arc::new(data),
    }
}

fn rectangle_path(width: f64, height: f64) -> PathData {
    PathData {
        segments: Arc::new(vec![
            PathSegment::Move { x: number(0.), y: number(0.) },
            PathSegment::Line { x: number(width), y: number(0.) },
            PathSegment::Line { x: number(width), y: number(height) },
            PathSegment::Line { x: number(0.), y: number(height) },
            PathSegment::Close,
        ]),
        rectangle: true,
    }
}

fn vector() -> VectorNode {
    VectorNode::outlined(
        rectangle_path(40., 20.),
        FillList::one(Fill::solid(black())),
        Arc::new(Vec::new()),
    )
}

fn rect(raw: u128) -> CanvasNode {
    node(raw, NodeData::Vector(vector()))
}

fn group(raw: u128) -> CanvasNode {
    node(raw, NodeData::Group(GroupNode::plain()))
}

fn sized_group(raw: u128, width: f64, height: f64) -> CanvasNode {
    node(
        raw,
        NodeData::Group(GroupNode { clip_size: Some(size(width, height)), ..GroupNode::plain() }),
    )
}

fn insert(doc: &mut Doc, mut node: CanvasNode, parent: Option<NodeId>) -> NodeId {
    node.parent = parent;
    node.index = doc.next_child_index(parent);
    let id = node.id;
    doc.apply(&Operation::CreateNode { node: Arc::new(node) }).expect("insert fixture");
    id
}

fn node_mut(doc: &mut Doc, id: NodeId) -> &mut CanvasNode {
    doc.nodes.iter_mut().find(|node| node.id == id).expect("node")
}

fn fixture() -> (Doc, NodeId, NodeId) {
    let mut doc = Doc {
        id: DocId { raw: 1 },
        nodes: Vec::new(),
        pages: Vec::new(),
        active_page: None,
        selection: Vec::new(),
        components: Vec::new(),
        sets: Vec::new(),
        tracks: Vec::new(),
    };
    let page = insert(&mut doc, group(10), None);
    doc.pages.push(page);
    let id = insert(&mut doc, rect(20), Some(page));
    (doc, page, id)
}

fn unframed() -> Result<Grouped, LayerError> {
    Err(LayerError::Host("nothing to frame".to_string()))
}

fn flatten_facts() -> FlattenFacts {
    FlattenFacts {
        detached: Vec::new(),
        detached_behind: Vec::new(),
        outline: Ok(rectangle_path(40., 20.)),
    }
}

fn layout_facts() -> LayoutFacts {
    LayoutFacts { local_size: None, framed: unframed(), framed_size: None }
}

fn facts() -> SimpleFacts {
    SimpleFacts {
        selection_roots: Vec::new(),
        selection_bounds: true,
        reflected: vec![Some(translation(0., 0.))],
        local_box: None,
        shifted: translation(0., 0.),
        shifted_children: vec![translation(0., 0.); 4],
        master_size: None,
        component: Vec::new(),
        framed: unframed(),
        grouped: unframed(),
        flatten: flatten_facts(),
        outlines: Vec::new(),
        layout: layout_facts(),
    }
}

fn sorted(doc: &Doc) -> Doc {
    let mut copy = doc.copy();
    copy.nodes.sort_by_key(|node| node.id.raw);
    copy.components.sort_by_key(|component| component.id.raw);
    copy.sets.sort_by_key(|set| set.id.raw);
    copy
}

fn undo(doc: &mut Doc, operations: &Vec<Operation>) {
    for operation in operations.iter().rev() {
        doc.apply(&operation.inverse()).expect("undo");
    }
}

fn roundtrip(doc: &mut Doc, operations: Vec<Operation>, verify: impl Fn(&Doc)) {
    assert!(!operations.is_empty());
    let before = sorted(doc);
    doc.apply_all(&operations).expect("apply");
    verify(doc);
    undo(doc, &operations);
    assert_eq!(sorted(doc), before);
    doc.apply_all(&operations).expect("redo");
    verify(doc);
}

/// The left edge of a layer of 40 by 20 that stands directly below a page.
fn left_edge(doc: &Doc, id: NodeId) -> f64 {
    let transform = doc.get(id).expect("node").transform;
    let corners = [(0., 0.), (40., 0.), (0., 20.), (40., 20.)];
    corners
        .iter()
        .map(|(x, y)| value(transform.m11) * x + value(transform.m21) * y + value(transform.tx))
        .fold(f64::INFINITY, f64::min)
}

#[test]
fn layer_menu_mask_roundtrips() {
    let (mut doc, _, id) = fixture();
    let operations = simple(&doc, id, LayerAction::UseAsMask, &facts()).expect("mask");
    roundtrip(&mut doc, operations, |doc| assert!(doc.get(id).expect("node").is_mask));
}

#[test]
fn layer_menu_flip_preserves_bounds_and_reflects_the_selection_as_one() {
    let (mut doc, page, left) = fixture();
    let mut other = rect(30);
    other.transform = translation(100., 0.);
    let right = insert(&mut doc, other, Some(page));
    doc.selection = vec![left, right];
    // The selection reaches from 0 to 140, so a point x goes to 140 - x.
    let mirrored = |x: f64| {
        Some(Transform { m11: number(-1.), ..translation(140. - x, 0.) })
    };
    let flip = SimpleFacts {
        selection_roots: vec![left, right],
        reflected: vec![mirrored(0.), mirrored(100.)],
        ..facts()
    };
    let operations = simple(&doc, left, LayerAction::FlipHorizontal, &flip).expect("flip");
    roundtrip(&mut doc, operations, |doc| {
        assert_eq!(left_edge(doc, left), 100.);
        assert_eq!(left_edge(doc, right), 0.);
    });
}

#[test]
fn layer_menu_locked_ancestor_prevents_mutation() {
    let (mut doc, page, id) = fixture();
    node_mut(&mut doc, page).flags.locked = true;
    for action in [
        LayerAction::UseAsMask,
        LayerAction::FlipHorizontal,
        LayerAction::CreateComponent,
        LayerAction::Flatten,
    ] {
        assert!(simple(&doc, id, action, &facts()).is_err());
    }
    assert!(delete_layers(&doc, id, &Vec::new(), &Vec::new(), &Vec::new()).is_err());
}

#[test]
fn layer_menu_frame_section_conversion_and_layout_are_reversible() {
    let (mut doc, page, _) = fixture();
    let id = insert(&mut doc, sized_group(30, 100., 80.), Some(page));
    let operations = simple(&doc, id, LayerAction::ConvertToSection, &facts()).expect("section");
    roundtrip(&mut doc, operations, |doc| assert!(is_section(doc.get(id).expect("node"))));
    let operations = simple(&doc, id, LayerAction::ConvertToFrame, &facts()).expect("frame");
    roundtrip(&mut doc, operations, |doc| {
        let node = doc.get(id).expect("node");
        assert!(!is_section(node));
        assert!(matches!(&*node.data, NodeData::Group(group) if group.clip_size.is_some()));
    });
    let operations =
        auto_layout(&doc, id, Some(LayoutMode::Vertical), &Vec::new(), &layout_facts())
            .expect("layout");
    roundtrip(&mut doc, operations, |doc| {
        assert!(
            matches!(&*doc.get(id).expect("node").data, NodeData::Group(group) if group.auto_layout.as_ref().is_some_and(|layout| layout.mode == LayoutMode::Vertical))
        )
    });
}

#[test]
fn layer_menu_move_page_preserves_world_transform() {
    let (mut doc, first, id) = fixture();
    node_mut(&mut doc, first).transform = translation(37., 24.);
    let mut page = group(40);
    page.transform = translation(-100., 10.);
    let second = insert(&mut doc, page, None);
    doc.pages = vec![first, second];
    let world = |doc: &Doc| {
        let node = doc.get(id).expect("node");
        let parent = doc.get(node.parent.expect("parent")).expect("page");
        (
            value(node.transform.tx) + value(parent.transform.tx),
            value(node.transform.ty) + value(parent.transform.ty),
        )
    };
    let before = world(&doc);
    assert_eq!(before, (37., 24.));
    // Where the layer stands, as the second page sees it.
    let moved = vec![Some(translation(37. + 100., 24. - 10.))];
    let operations = move_to_page(&doc, id, second, &Vec::new(), true, &moved).expect("move");
    roundtrip(&mut doc, operations, |doc| {
        assert_eq!(doc.get(id).expect("node").parent, Some(second));
        assert_eq!(world(doc), before);
    });
}

fn picture(doc: &mut Doc, page: NodeId) -> NodeId {
    insert(
        doc,
        node(
            30,
            NodeData::Bitmap(BitmapNode {
                asset: AssetId { raw: 7 },
                natural_size: PixelSize { width: 400, height: 200 },
                local_size: size(400., 200.),
                crop: None,
                fit: ImageFitMode::Fill,
                tint: None,
            }),
        ),
        Some(page),
    )
}

fn window(x: f64, y: f64, width: f64, height: f64) -> CropWindow {
    CropWindow { x: number(x), y: number(y), width: number(width), height: number(height) }
}

#[test]
fn layer_menu_crop_and_reset_preserve_image_aspect() {
    let (mut doc, page, _) = fixture();
    let id = picture(&mut doc, page);
    let square = window(0.25, 0., 0.5, 1.);
    let operations = crop(&doc, id, Some(number(1.)), square, number(400.)).expect("crop");
    roundtrip(&mut doc, operations, |doc| {
        assert!(
            matches!(&*doc.get(id).expect("image").data, NodeData::Bitmap(image) if image.crop == Some(square) && image.local_size == size(400., 400.))
        )
    });
    let operations = crop(&doc, id, None, square, number(200.)).expect("reset");
    roundtrip(&mut doc, operations, |doc| {
        assert!(
            matches!(&*doc.get(id).expect("image").data, NodeData::Bitmap(image) if image.crop.is_none() && image.local_size == size(400., 200.))
        )
    });
    assert!(crop(&doc, id, Some(number(f64::NAN)), square, number(200.)).is_err());
}

#[test]
fn layer_menu_outline_keeps_distinct_paints_and_stacking() {
    let (mut doc, page, id) = fixture();
    node_mut(&mut doc, id).data = Arc::new(NodeData::Vector(VectorNode {
        strokes: Arc::new(vec![stroke(3.)]),
        ..vector()
    }));
    let next = insert(&mut doc, rect(30), Some(page));
    let outline = SimpleFacts { outlines: vec![outline_facts()], ..facts() };
    let operations = simple(&doc, id, LayerAction::OutlineStroke, &outline).expect("outline");
    roundtrip(&mut doc, operations, |doc| {
        let children = doc.children_of(Some(page));
        assert_eq!(children.len(), 2);
        assert_eq!(children.first(), Some(&id));
        assert_eq!(children.last(), Some(&next));
        assert!(matches!(&*doc.get(id).expect("vector").data, NodeData::Group(_)));
        assert_eq!(doc.children_of(Some(id)).len(), 2);
    });
}

fn stroke(width: f64) -> Stroke {
    Stroke {
        paint: Fill::solid(black()),
        width: number(width),
        align: StrokeAlign::Center,
        cap: StrokeCap::Butt,
        join: StrokeJoin::Miter,
        miter_limit: number(4.),
        dash: Arc::new(Vec::new()),
        per_side: None,
    }
}

fn outline_facts() -> OutlineFacts {
    OutlineFacts {
        flatten: flatten_facts(),
        local_size: None,
        outline_error: None,
        stroke_paths: vec![Ok(rectangle_path(43., 23.))],
        blanks: vec![group(101), group(102)],
    }
}

#[test]
fn layer_menu_flatten_removes_children_and_undo_restores_them() {
    let (mut doc, page, _) = fixture();
    let outer = insert(&mut doc, group(30), Some(page));
    let child = insert(&mut doc, rect(31), Some(outer));
    let operations = simple(&doc, outer, LayerAction::Flatten, &facts()).expect("flatten");
    roundtrip(&mut doc, operations, |doc| {
        assert!(!doc.contains(child));
        assert!(matches!(&*doc.get(outer).expect("node").data, NodeData::Vector(_)));
    });
}

fn master_instance(doc: &mut Doc, page: NodeId) -> (NodeId, NodeId, ComponentId) {
    let master = insert(doc, sized_group(50, 40., 20.), Some(page));
    insert(doc, rect(51), Some(master));
    let component = ComponentId { raw: 60 };
    doc.components.push(ComponentDef {
        id: component,
        root: master,
        name: "Button".to_string(),
        props: Arc::new(Vec::new()),
    });
    let instance = insert(
        doc,
        node(
            52,
            NodeData::Instance(InstanceNode {
                component,
                overrides: Arc::new(Vec::new()),
                prop_values: Arc::new(Vec::new()),
                derived: Arc::new(Vec::new()),
                local_size: size(40., 20.),
            }),
        ),
        Some(page),
    );
    (master, instance, component)
}

fn detach(doc: &Doc, instance: NodeId) -> Vec<Operation> {
    let node = doc.get(instance).expect("instance");
    vec![Operation::ReplaceData {
        id: instance,
        old: node.data.clone(),
        new: Arc::new(NodeData::Group(GroupNode::plain())),
    }]
}

fn delete_subtree(doc: &Doc, id: NodeId) -> Vec<Operation> {
    let snapshot =
        doc.descendants_of(id).into_iter().map(|id| doc.get(id).expect("layer").copy()).collect();
    vec![Operation::DeleteSubtree { snapshot: Arc::new(snapshot) }]
}

#[test]
fn layer_menu_delete_master_preserves_its_instances_and_undo_restores_definition() {
    let (mut doc, page, _) = fixture();
    let (master, instance, component) = master_instance(&mut doc, page);
    assert_eq!(dependent_instances(&doc, &vec![master]), vec![instance]);
    let detached = vec![detach(&doc, instance)];
    let deletions = delete_subtree(&doc, master);
    let operations =
        delete_layers(&doc, master, &Vec::new(), &detached, &deletions).expect("delete");
    roundtrip(&mut doc, operations, |doc| {
        assert!(!doc.contains(master));
        assert!(!doc.components.iter().any(|def| def.id == component));
        assert!(matches!(&*doc.get(instance).expect("instance").data, NodeData::Group(_)));
    });
}

#[test]
fn deleting_a_master_fails_where_an_instance_would_be_lost() {
    let (mut doc, page, _) = fixture();
    let (master, _, _) = master_instance(&mut doc, page);
    let deletions = delete_subtree(&doc, master);
    assert_eq!(
        delete_layers(&doc, master, &Vec::new(), &Vec::new(), &deletions),
        Err(LayerError::InstanceLost)
    );
}

#[test]
fn layer_menu_style_paste_changes_appearance_without_geometry() {
    let (mut doc, _, id) = fixture();
    let transform = doc.get(id).expect("node").transform;
    let mut source = rect(90);
    source.opacity = number(0.4);
    source.transform = translation(100., 100.);
    let operations =
        paste_properties(&doc, id, &source, &Vec::new()).expect("paste properties");
    roundtrip(&mut doc, operations, |doc| {
        let node = doc.get(id).expect("node");
        assert_eq!(node.transform, transform);
        assert_eq!(node.opacity, source.opacity);
    });
}

#[test]
fn layer_menu_create_component_wraps_leaf_and_reset_instance_restores_size() {
    let (mut doc, page, id) = fixture();
    let mut frame = sized_group(70, 40., 20.);
    frame.parent = Some(page);
    frame.index = doc.get(id).expect("node").index;
    let old_index = frame.index;
    let wrap = SimpleFacts {
        framed: Ok(Grouped {
            operations: vec![
                Operation::CreateNode { node: Arc::new(frame) },
                Operation::Reparent {
                    id,
                    old_parent: Some(page),
                    old_index,
                    new_parent: Some(NodeId { raw: 70 }),
                    new_index: IndexKey::initial(),
                },
            ],
            group: NodeId { raw: 70 },
        }),
        component: vec![Operation::InsertComponent {
            id: ComponentId { raw: 71 },
            def: Arc::new(ComponentDef {
                id: ComponentId { raw: 71 },
                root: NodeId { raw: 70 },
                name: "Rectangle".to_string(),
                props: Arc::new(Vec::new()),
            }),
        }],
        ..facts()
    };
    let operations =
        simple(&doc, id, LayerAction::CreateComponent, &wrap).expect("create component");
    roundtrip(&mut doc, operations, |doc| {
        assert_eq!(doc.components.len(), 1);
        assert_eq!(doc.get(id).expect("node").parent, Some(NodeId { raw: 70 }));
    });
    let (_, instance, component) = master_instance(&mut doc, page);
    node_mut(&mut doc, instance).data = Arc::new(NodeData::Instance(InstanceNode {
        component,
        overrides: Arc::new(Vec::new()),
        prop_values: Arc::new(Vec::new()),
        derived: Arc::new(Vec::new()),
        local_size: size(500., 800.),
    }));
    let reset = SimpleFacts { master_size: Some(size(40., 20.)), ..facts() };
    let operations = simple(&doc, instance, LayerAction::ResetInstance, &reset).expect("reset");
    roundtrip(&mut doc, operations, |doc| {
        assert!(
            matches!(&*doc.get(instance).expect("instance").data, NodeData::Instance(value) if value.local_size == size(40., 20.))
        )
    });
}

#[test]
fn commands_that_do_not_fit_say_why() {
    let (mut doc, page, id) = fixture();
    let (master, _, _) = master_instance(&mut doc, page);
    let outcome = |id: NodeId, action: LayerAction| {
        simple(&doc, id, action, &facts()).expect_err("refused")
    };
    assert_eq!(outcome(page, LayerAction::UseAsMask), LayerError::LockedOrPage);
    assert_eq!(outcome(id, LayerAction::ConvertToFrame), LayerError::NotGroup);
    assert_eq!(outcome(master, LayerAction::ConvertToSection), LayerError::ComponentToSection);
    assert_eq!(outcome(id, LayerAction::ResetInstance), LayerError::NotInstance);
    let outline = SimpleFacts { outlines: vec![outline_facts()], ..facts() };
    assert_eq!(
        simple(&doc, id, LayerAction::OutlineStroke, &outline),
        Err(LayerError::NothingToOutline)
    );
    assert_eq!(outcome(id, LayerAction::MoveToPage), LayerError::NeedsPicker);
    let boundless = SimpleFacts { selection_bounds: false, ..facts() };
    assert_eq!(
        simple(&doc, id, LayerAction::FlipVertical, &boundless),
        Err(LayerError::NoSelectionBounds)
    );
    assert_eq!(
        crop(&doc, id, None, window(0., 0., 1., 1.), number(1.)),
        Err(LayerError::NotImage)
    );
    assert_eq!(toggle_wrap(&doc, id), Err(LayerError::NotAutoLayoutFrame));
    assert_eq!(
        auto_layout(&doc, id, None, &Vec::new(), &layout_facts()),
        Err(LayerError::NotLayoutFrame)
    );
    assert_eq!(
        move_to_page(&doc, id, NodeId { raw: 999 }, &Vec::new(), true, &Vec::new()),
        Err(LayerError::PageGone)
    );
}

#[test]
fn a_crop_window_has_to_lie_inside_the_picture() {
    let (mut doc, page, _) = fixture();
    let id = picture(&mut doc, page);
    let percent = window(10., 20., 50., 50.);
    let fractions = window(0.1, 0.2, 0.5, 0.5);
    let operations =
        crop_rectangle(&doc, id, percent, true, fractions, number(200.)).expect("crop");
    roundtrip(&mut doc, operations, |doc| {
        assert!(
            matches!(&*doc.get(id).expect("image").data, NodeData::Bitmap(image) if image.crop == Some(fractions))
        )
    });
    for bad in [window(-1., 0., 50., 50.), window(0., 0., 0., 50.), window(f64::NAN, 0., 1., 1.)] {
        assert_eq!(
            crop_rectangle(&doc, id, bad, true, fractions, number(200.)),
            Err(LayerError::BadCrop)
        );
    }
    assert_eq!(
        crop_rectangle(&doc, id, percent, false, fractions, number(200.)),
        Err(LayerError::BadCrop)
    );
}

#[test]
fn wrapping_turns_over_and_back() {
    let (mut doc, page, _) = fixture();
    let id = insert(&mut doc, sized_group(30, 100., 80.), Some(page));
    let wraps = |doc: &Doc| match &*doc.get(id).expect("node").data {
        NodeData::Group(group) => group.auto_layout.map(|layout| layout.wrap),
        _ => None,
    };
    let operations = toggle_wrap(&doc, id).expect("wrap");
    roundtrip(&mut doc, operations, |doc| assert_eq!(wraps(doc), Some(true)));
    let operations = toggle_wrap(&doc, id).expect("unwrap");
    roundtrip(&mut doc, operations, |doc| assert_eq!(wraps(doc), Some(false)));
}

#[test]
fn stacking_moves_a_layer_to_the_front_and_to_the_back() {
    let (mut doc, page, id) = fixture();
    let other = insert(&mut doc, rect(30), Some(page));
    let operations = stack(&doc, id, true, &Vec::new()).expect("front");
    roundtrip(&mut doc, operations, |doc| {
        assert_eq!(doc.children_of(Some(page)), vec![other, id])
    });
    let operations = stack(&doc, id, false, &Vec::new()).expect("back");
    roundtrip(&mut doc, operations, |doc| {
        assert_eq!(doc.children_of(Some(page)), vec![id, other])
    });
}

#[test]
fn created_roots_are_the_layers_whose_parent_was_not_created() {
    let mut inner = rect(2);
    inner.parent = Some(NodeId { raw: 1 });
    let operations = vec![
        Operation::CreateNode { node: Arc::new(group(1)) },
        Operation::CreateNode { node: Arc::new(inner) },
    ];
    assert_eq!(created_roots(&operations), vec![NodeId { raw: 1 }]);
}

#[test]
fn an_operation_on_a_missing_layer_is_refused_and_changes_nothing() {
    let (mut doc, _, _) = fixture();
    let before = doc.copy();
    let operation = Operation::SetMask { id: NodeId { raw: 999 }, old: false, new: true };
    assert!(doc.apply(&operation).is_err());
    assert_eq!(doc, before);
}
