use std::sync::Arc;

use fig_viewer::document::{
    BoundProp, CanvasNode, ComponentDef, Doc, GroupNode, IndexKey, InstanceNode, MaskType,
    NodeData, NodeFlags, Override, OverrideValue, TextAlign, TextAutoResize, TextNode, TextStyle,
    TextVAlign, Transform,
};
use fig_viewer::ids::{ComponentId, DocId, NodeId};
use fig_viewer::instance_text::{
    clone_transforms, commit_ops, has_parents_first, preview_overrides, set_overrides_transient,
    snapshot_overrides, text_clones, text_target_at, CloneProbe, ExpandedNode, InstanceTextTarget,
    SetInstanceOverride,
};
use fig_viewer::operations::Operation;
use fig_viewer::paint::{BlendMode, Color, Fill, Point, Size};
use fig_viewer::scalar::Scalar;

fn number(value: f64) -> Scalar {
    Scalar::of(value.to_bits())
}

fn value(number: Scalar) -> f64 {
    f64::from_bits(number.bits)
}

fn translation(x: f64, y: f64) -> Transform {
    Transform {
        m11: number(1.),
        m12: number(0.),
        m21: number(0.),
        m22: number(1.),
        tx: number(x),
        ty: number(y),
    }
}

fn rgb(r: u8, g: u8, b: u8) -> Color {
    Color { r, g, b, a: 255 }
}

fn node(raw: u128, data: NodeData, parent: Option<NodeId>, transform: Transform) -> CanvasNode {
    CanvasNode {
        id: NodeId { raw },
        parent,
        index: IndexKey::initial(),
        name: String::new(),
        flags: NodeFlags { hidden: false, locked: false, isolated_blend: false },
        transform,
        opacity: number(1.),
        blend_mode: BlendMode::Normal,
        is_mask: false,
        mask_type: MaskType::Alpha,
        effects: Arc::new(Vec::new()),
        blurs: Arc::new(Vec::new()),
        layout_child: None,
        bindings: Arc::new(Vec::new()),
        meta: serde_json::Value::Null,
        data: Arc::new(data),
    }
}

fn text(content: &str) -> TextNode {
    TextNode {
        content: content.to_string(),
        style: TextStyle {
            font_family: "Inter".to_string(),
            italic: false,
            weight: 400,
            size_px: number(16.),
            line_height: number(1.2),
            line_height_auto_percent: None,
            letter_spacing: number(0.),
            underline: false,
            strikethrough: false,
            color: rgb(0, 0, 0),
        },
        style_runs: Arc::new(Vec::new()),
        align: TextAlign::Left,
        vertical_align: TextVAlign::Top,
        auto_resize: TextAutoResize::Fixed,
        local_size: Size { width: number(120.), height: number(30.) },
    }
}

const ROOT: NodeId = NodeId { raw: 1 };
const INNER: NodeId = NodeId { raw: 2 };
const TEXT: NodeId = NodeId { raw: 3 };
const INSTANCE: NodeId = NodeId { raw: 9 };

fn document(nested: bool) -> (Doc, NodeId, Arc<Vec<NodeId>>) {
    let mut doc = Doc {
        id: DocId { raw: 1 },
        nodes: Vec::new(),
        pages: Vec::new(),
        active_page: None,
        selection: Vec::new(),
        components: Vec::new(),
        sets: Vec::new(),
        tracks: Vec::new(),
    };
    let mut create = |node: CanvasNode| {
        doc.apply(&Operation::CreateNode { node: Arc::new(node) }).expect("create");
    };
    create(node(1, NodeData::Group(GroupNode::plain()), None, translation(1000., 1000.)));
    if nested {
        create(node(2, NodeData::Group(GroupNode::plain()), Some(ROOT), translation(30., 40.)));
    }
    let (parent, content) = if nested { (INNER, "Nested") } else { (ROOT, "Master") };
    create(node(3, NodeData::Text(text(content)), Some(parent), translation(10., 20.)));
    create(node(
        9,
        NodeData::Instance(InstanceNode {
            component: ComponentId { raw: 5 },
            overrides: Arc::new(Vec::new()),
            prop_values: Arc::new(Vec::new()),
            derived: Arc::new(Vec::new()),
            local_size: Size { width: number(120.), height: number(30.) },
        }),
        None,
        translation(500., 300.),
    ));
    doc.components.push(ComponentDef {
        id: ComponentId { raw: 5 },
        root: ROOT,
        name: "Card".to_string(),
        props: Arc::new(Vec::new()),
    });
    doc.pages.push(INSTANCE);
    let path = if nested { vec![INNER, TEXT] } else { vec![TEXT] };
    (doc, INSTANCE, Arc::new(path))
}

fn doc_with_instance() -> (Doc, NodeId, Arc<Vec<NodeId>>) {
    document(false)
}

fn doc_with_nested_instance() -> (Doc, NodeId, Arc<Vec<NodeId>>) {
    document(true)
}

fn overrides(doc: &Doc) -> Vec<Override> {
    snapshot_overrides(doc, INSTANCE)
}

/// The main component's layers as the instance shows them, parents first.
fn expand(doc: &Doc) -> Vec<ExpandedNode> {
    let mut expanded: Vec<ExpandedNode> = Vec::new();
    for id in doc.descendants_of(ROOT) {
        let mut node = doc.get(id).expect("layer").copy();
        let mut path = vec![id];
        path.extend(doc.ancestors_of(id).into_iter().filter(|above| *above != ROOT));
        path.reverse();
        if id == ROOT {
            path.clear();
        }
        for item in overrides(doc) {
            if *item.target_path != path {
                continue;
            }
            if let NodeData::Text(text) = &*node.data {
                let mut changed = text.copy();
                match &item.value {
                    OverrideValue::Text { value } => changed.content = value.clone(),
                    OverrideValue::Fills { fills } => {
                        if let Some(Fill::Solid { color, .. }) = fills.fills().first() {
                            changed.style.color = *color;
                        }
                    }
                    OverrideValue::Visible { .. } => {}
                }
                node.data = Arc::new(NodeData::Text(changed));
            }
        }
        expanded.push(ExpandedNode { node, def_path: Arc::new(path) });
    }
    expanded
}

fn target_at(doc: &Doc, instance: NodeId, x: f64, y: f64) -> Option<InstanceTextTarget> {
    let expanded = expand(doc);
    assert!(has_parents_first(&expanded));
    let at = doc.get(instance).expect("instance").transform;
    let probes: Vec<CloneProbe> = (0..expanded.len())
        .map(|place| {
            let (mut left, mut top) = (value(at.tx), value(at.ty));
            for step in clone_transforms(&expanded, place) {
                left += value(step.tx);
                top += value(step.ty);
            }
            CloneProbe {
                world: translation(left, top),
                local: Point { x: number(x - left), y: number(y - top) },
            }
        })
        .collect();
    text_target_at(doc, instance, &expanded, &probes)
}

fn apply(doc: &mut Doc, operations: Vec<SetInstanceOverride>) {
    for operation in operations {
        let mut all = snapshot_overrides(doc, operation.id);
        let new = operation.new.expect("an override");
        if operation.index < all.len() {
            all[operation.index] = new;
        } else {
            assert_eq!(operation.index, all.len());
            all.push(new);
        }
        set_overrides_transient(doc, operation.id, all);
    }
}

#[test]
fn hit_test_finds_the_text_clone_with_its_def_path() {
    let (doc, instance_id, def_path) = doc_with_instance();
    let target = target_at(&doc, instance_id, 520., 330.).expect("a text clone under the point");
    assert_eq!(target.instance_id, instance_id);
    assert_eq!(target.def_path, def_path);
    assert_eq!(target.text.content, "Master");
}

#[test]
fn clone_world_transform_matches_instance_plus_child_offset() {
    let (doc, instance_id, _) = doc_with_instance();
    let target = target_at(&doc, instance_id, 520., 330.).expect("target");
    assert_eq!((value(target.world.tx), value(target.world.ty)), (510., 320.));
}

#[test]
fn a_point_outside_every_text_box_is_a_miss() {
    let (doc, instance_id, _) = doc_with_instance();
    assert!(target_at(&doc, instance_id, 490., 305.).is_none());
}

#[test]
fn hidden_text_clone_is_not_hit() {
    let (mut doc, instance_id, def_path) = doc_with_instance();
    let old = doc.get(def_path[0]).expect("master text").flags;
    let new = NodeFlags { hidden: true, ..old };
    doc.apply(&Operation::SetFlags { id: def_path[0], old, new }).expect("hide");
    assert!(
        target_at(&doc, instance_id, 520., 330.).is_none(),
        "a hidden clone must not be an edit target"
    );
}

#[test]
fn content_op_adds_then_replaces_the_same_slot() {
    let (mut doc, instance_id, def_path) = doc_with_instance();
    let ops = commit_ops(&doc, instance_id, &def_path, Some("Edited"), None);
    assert_eq!(ops.len(), 1);
    assert_eq!(ops[0].index, 0);
    assert!(ops[0].old.is_none());
    assert!(matches!(
        ops[0].new.as_ref().map(|item| &item.value),
        Some(OverrideValue::Text { value }) if value == "Edited"
    ));
    apply(&mut doc, ops);

    let ops = commit_ops(&doc, instance_id, &def_path, Some("Again"), None);
    assert_eq!(ops[0].index, 0);
    assert!(ops[0].old.is_some());
    apply(&mut doc, ops);

    assert_eq!(overrides(&doc).len(), 1);
    let target = target_at(&doc, instance_id, 520., 330.).expect("target");
    assert_eq!(target.text.content, "Again");
}

#[test]
fn color_and_content_are_independent_slots() {
    let (mut doc, instance_id, def_path) = doc_with_instance();
    let ops = commit_ops(&doc, instance_id, &def_path, Some("Hi"), Some(rgb(255, 0, 0)));
    assert_eq!(ops.len(), 2);
    apply(&mut doc, ops);
    assert_eq!(overrides(&doc).len(), 2, "content + color are distinct overrides");
    let target = target_at(&doc, instance_id, 520., 330.).expect("target");
    assert_eq!(target.text.content, "Hi");
    assert_eq!(target.text.style.color, rgb(255, 0, 0));
}

#[test]
fn nested_group_text_is_hit_through_both_local_transforms() {
    let (doc, instance_id, def_path) = doc_with_nested_instance();
    let target =
        target_at(&doc, instance_id, 550., 370.).expect("the nested text clone under the point");
    assert_eq!(target.instance_id, instance_id);
    assert_eq!(target.def_path, def_path, "def path is [inner_group, text]");
    assert_eq!(target.def_path.len(), 2);
    assert_eq!(target.text.content, "Nested");
    assert_eq!((value(target.world.tx), value(target.world.ty)), (540., 360.));
    assert!(target_at(&doc, instance_id, 510., 320.).is_none());
}

#[test]
fn nested_path_override_edits_only_the_nested_clone() {
    let (mut doc, instance_id, def_path) = doc_with_nested_instance();
    let ops = commit_ops(&doc, instance_id, &def_path, Some("Deep edit"), None);
    assert_eq!(ops.len(), 1);
    apply(&mut doc, ops);
    let target = target_at(&doc, instance_id, 550., 370.).expect("target");
    assert_eq!(target.text.content, "Deep edit");
    assert_eq!(target.def_path, def_path);
}

#[test]
fn commit_appends_after_a_pre_existing_unrelated_override() {
    let (mut doc, instance_id, def_path) = doc_with_nested_instance();
    let unrelated_path = Arc::new(vec![def_path[0]]);
    let unrelated = commit_ops(&doc, instance_id, &unrelated_path, Some("Unrelated"), None);
    assert_eq!(unrelated.len(), 1);
    assert_eq!(unrelated[0].index, 0);
    apply(&mut doc, unrelated);

    let ops = commit_ops(&doc, instance_id, &def_path, Some("Hi"), Some(rgb(0, 0, 255)));
    assert_eq!(ops.len(), 2);
    assert!(ops.iter().all(|op| op.old.is_none()), "both land in fresh slots");
    let indices: Vec<usize> = ops.iter().map(|op| op.index).collect();
    assert_eq!(indices, vec![1, 2], "appends skip the occupied slot 0");
    apply(&mut doc, ops);

    let all = overrides(&doc);
    assert_eq!(all.len(), 3);
    assert_eq!(all[0].target_path, unrelated_path, "the pre-existing override keeps its slot");
    let target = target_at(&doc, instance_id, 550., 370.).expect("target");
    assert_eq!(target.text.content, "Hi");
    assert_eq!(target.text.style.color, rgb(0, 0, 255));
}

#[test]
fn preview_then_rewind_round_trips_the_override_vec() {
    let (mut doc, instance_id, def_path) = doc_with_instance();
    let base = snapshot_overrides(&doc, instance_id);
    assert!(base.is_empty());

    let previewed = preview_overrides(&base, &def_path, "Draft", Some(rgb(0, 128, 0)));
    set_overrides_transient(&mut doc, instance_id, previewed);
    let target = target_at(&doc, instance_id, 520., 330.).expect("target");
    assert_eq!(target.text.content, "Draft");
    assert_eq!(target.text.style.color, rgb(0, 128, 0));

    set_overrides_transient(&mut doc, instance_id, base);
    let target = target_at(&doc, instance_id, 520., 330.).expect("target");
    assert_eq!(target.text.content, "Master");
}

#[test]
fn committing_writes_what_the_preview_showed() {
    let (mut doc, instance_id, def_path) = doc_with_instance();
    let base = snapshot_overrides(&doc, instance_id);
    let previewed = preview_overrides(&base, &def_path, "Draft", Some(rgb(1, 2, 3)));
    let ops = commit_ops(&doc, instance_id, &def_path, Some("Draft"), Some(rgb(1, 2, 3)));
    apply(&mut doc, ops);
    assert_eq!(snapshot_overrides(&doc, instance_id), previewed);
    assert_eq!(previewed[0].target_prop, BoundProp::TextContent);
    assert_eq!(text_clones(&doc, instance_id, &expand(&doc)).len(), 1);
}
