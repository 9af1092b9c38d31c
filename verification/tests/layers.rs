use std::sync::Arc;

use fig_viewer::document::{
    CanvasNode, ComponentDef, ComponentSet, Doc, GroupNode, IndexKey, MaskType, NodeData,
    NodeFlags, PathData, PathSegment, Transform, VectorNode,
};
use fig_viewer::ids::{ComponentId, DocId, NodeId};
use fig_viewer::layers::{
    drop_placement, layers_kind, layers_tree, DropPosition, KindContext, LayerDropPlacement,
    LayerKind,
};
use fig_viewer::operations::Operation;
use fig_viewer::paint::{BlendMode, FillList};
use fig_viewer::scalar::Scalar;

fn number(value: f64) -> Scalar {
    Scalar::of(value.to_bits())
}

fn node(raw: u128, data: NodeData) -> CanvasNode {
    CanvasNode {
        id: NodeId { raw },
        parent: None,
        index: IndexKey::initial(),
        name: String::new(),
        flags: NodeFlags { hidden: false, locked: false, isolated_blend: false },
        transform: Transform {
            m11: number(1.),
            m12: number(0.),
            m21: number(0.),
            m22: number(1.),
            tx: number(0.),
            ty: number(0.),
        },
        opacity: number(1.),
        blend_mode: BlendMode::Normal,
        is_mask: false,
        mask_type: MaskType::Alpha,
        effects: Arc::new(Vec::new()),
        blurs: Arc::new(Vec::new()),
        layout_child: None,
        bindings: Arc::new(Vec::new()),
        meta: serde_json::Value::Null,
        data: Arc::new(data),
    }
}

fn path(segments: Vec<PathSegment>, rectangle: bool) -> CanvasNode {
    node(
        0,
        NodeData::Vector(VectorNode::outlined(
            PathData { segments: Arc::new(segments), rectangle },
            FillList::of(Vec::new()),
            Arc::new(Vec::new()),
        )),
    )
}

fn rect() -> CanvasNode {
    path(
        vec![
            PathSegment::Move { x: number(0.), y: number(0.) },
            PathSegment::Line { x: number(10.), y: number(0.) },
            PathSegment::Line { x: number(10.), y: number(10.) },
            PathSegment::Line { x: number(0.), y: number(10.) },
            PathSegment::Close,
        ],
        true,
    )
}

fn group() -> CanvasNode {
    node(0, NodeData::Group(GroupNode::plain()))
}

fn empty() -> Doc {
    Doc {
        id: DocId { raw: 1 },
        nodes: Vec::new(),
        pages: Vec::new(),
        active_page: None,
        selection: Vec::new(),
        components: Vec::new(),
        sets: Vec::new(),
        tracks: Vec::new(),
    }
}

fn insert(doc: &mut Doc, mut node: CanvasNode, parent: Option<NodeId>) -> NodeId {
    node.id = NodeId { raw: doc.nodes.len() as u128 + 100 };
    node.parent = parent;
    node.index = doc.next_child_index(parent);
    let id = node.id;
    doc.apply(&Operation::CreateNode { node: Arc::new(node) }).expect("insert node");
    id
}

fn component(raw: u128, root: NodeId, name: &str) -> ComponentDef {
    ComponentDef {
        id: ComponentId { raw },
        root,
        name: name.to_string(),
        props: Arc::new(Vec::new()),
    }
}

#[test]
fn tree_lists_topmost_first_and_falls_back_to_scene_roots_without_a_page() {
    let mut doc = empty();
    let page = insert(&mut doc, group(), None);
    let mut bottom = rect();
    bottom.name = "Bottom".to_string();
    let bottom = insert(&mut doc, bottom, Some(page));
    let mut top = rect();
    top.name = "Top".to_string();
    let top = insert(&mut doc, top, Some(page));

    let tree = layers_tree(&doc, Some(page));
    assert_eq!(
        tree.iter().map(|item| item.title.as_str()).collect::<Vec<_>>(),
        vec!["Top", "Bottom"]
    );
    assert_eq!(tree[0].id, top);
    assert_eq!(tree[1].id, bottom);

    let rootless = layers_tree(&doc, None);
    assert_eq!(rootless.len(), 1);
    assert_eq!(rootless[0].id, page);
    assert_eq!(rootless[0].children.len(), 2);
}

#[test]
fn kinds_recover_shape_provenance_masks_and_component_sets() {
    let mut doc = empty();
    let page = insert(&mut doc, group(), None);
    let rectangle = insert(&mut doc, rect(), Some(page));
    let line = path(
        vec![
            PathSegment::Move { x: number(0.), y: number(0.) },
            PathSegment::Line { x: number(10.), y: number(10.) },
        ],
        false,
    );
    let line = insert(&mut doc, line, Some(page));
    let mut mask = rect();
    mask.is_mask = true;
    let mask = insert(&mut doc, mask, Some(page));
    let master = insert(&mut doc, group(), Some(page));
    doc.components.push(component(1, master, "Button"));
    let set_frame = insert(&mut doc, group(), Some(page));
    let variant_root = insert(&mut doc, group(), Some(set_frame));
    doc.components.push(component(2, variant_root, "Size=Small"));
    doc.sets.push(ComponentSet {
        id: ComponentId { raw: 3 },
        name: "Chip".to_string(),
        members: Arc::new(vec![ComponentId { raw: 2 }]),
        default_variant: ComponentId { raw: 2 },
    });

    let context = KindContext::from_doc(&doc);
    let kind = |id: NodeId| layers_kind(id, doc.get(id).expect("node"), &context, &doc);
    assert_eq!(kind(rectangle), LayerKind::Rectangle);
    assert_eq!(kind(line), LayerKind::Line);
    assert_eq!(kind(mask), LayerKind::Mask);
    assert_eq!(kind(master), LayerKind::Component);
    assert_eq!(kind(set_frame), LayerKind::ComponentSet);
    assert_eq!(kind(variant_root), LayerKind::Component);
    assert_eq!(kind(page), LayerKind::Group);
}

#[test]
fn drops_keep_their_side() {
    assert_eq!(drop_placement(DropPosition::Before), LayerDropPlacement::Above);
    assert_eq!(drop_placement(DropPosition::Inside), LayerDropPlacement::Inside);
    assert_eq!(drop_placement(DropPosition::After), LayerDropPlacement::Below);
}
