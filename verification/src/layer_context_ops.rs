//! Pure, reversible document commands used by the shared Layers menu. What
//! takes geometry to compute comes in as an argument.

use std::sync::Arc;

use vstd::prelude::*;
use vstd::string::*;

use crate::document::{
    AutoLayout, BitmapNode, CanvasNode, Doc, GroupNode, LayoutMode, NodeData, TextNode, VectorNode,
    BooleanNode,
};
use crate::ids::{holds, NodeId};
use crate::layer_errors::LayerError;
use crate::meta::text_member;
use crate::operations::{extend, Operation};
use crate::paint::{share, BlendMode, CropWindow, Fill, FillList, ImageAdjust, Size, Stroke};
use crate::scalar::Scalar;
use crate::text::same_text;

verus! {

/// Commands of the layer menu.
#[derive(Clone, Copy, Debug, PartialEq, Eq, Structural)]
pub enum LayerAction {
    UseAsMask,
    FlipHorizontal,
    FlipVertical,
    ConvertToFrame,
    ConvertToSection,
    ResetInstance,
    AddAutoLayout,
    CreateComponent,
    Flatten,
    OutlineStroke,
    MoveToPage,
    MoreLayoutOptions,
    CropImage,
    CopyPasteAs,
    /// Anything that an editor interaction or the host carries out.
    Elsewhere,
}

/// A list of operations that gathers layers, and the group they end up in.
#[derive(Debug, PartialEq)]
pub struct Grouped {
    pub operations: Vec<Operation>,
    pub group: NodeId,
}

/// The operation puts `data` in the place of a layer's data.
pub open spec fn replaces(operation: Operation, node: CanvasNode, data: NodeData) -> bool {
    match operation {
        Operation::ReplaceData { id, old, new } => id == node.id && old == node.data && *new
            == data,
        _ => false,
    }
}

pub fn replace_data(node: &CanvasNode, data: NodeData) -> (operation: Operation)
    ensures
        replaces(operation, *node, data),
{
    Operation::ReplaceData { id: node.id, old: share(&node.data), new: Arc::new(data) }
}

/// The layers that a command on one layer goes to: the roots of the selection
/// where the layer is selected, and otherwise the layer alone.
pub open spec fn target_ids(doc: Doc, id: NodeId, selection_roots: Seq<NodeId>) -> Seq<NodeId> {
    if doc.selection@.contains(id) {
        selection_roots
    } else {
        seq![id]
    }
}

pub fn targets(doc: &Doc, id: NodeId, selection_roots: &Vec<NodeId>) -> (ids: Vec<NodeId>)
    ensures
        ids@ == target_ids(*doc, id, selection_roots@),
{
    if holds(&doc.selection, id) {
        crate::ids::copy_ids(selection_roots)
    } else {
        let mut ids: Vec<NodeId> = Vec::new();
        ids.push(id);
        assert(ids@ =~= seq![id]);
        ids
    }
}

/// The layer may be changed: it is there, it is not locked, it is no page, and
/// nothing above it is locked.
pub open spec fn can_edit(doc: Doc, id: NodeId) -> bool {
    &&& crate::scene::find(doc.nodes@, id) matches Some(node)
    &&& !node.flags.locked
    &&& !doc.pages@.contains(id)
    &&& !crate::scene::under_lock(doc.nodes@, id)
}

pub fn editable(doc: &Doc, id: NodeId) -> (r: bool)
    ensures
        r == can_edit(*doc, id),
{
    match doc.get(id) {
        Some(node) => !node.flags.locked && !holds(&doc.pages, id) && !doc.has_locked_ancestor(id),
        None => false,
    }
}

/// Some layer of the list may not be changed.
pub open spec fn any_locked(doc: Doc, ids: Seq<NodeId>) -> bool {
    exists|i: int| 0 <= i < ids.len() && !can_edit(doc, #[trigger] ids[i])
}

pub(crate) fn any_uneditable(doc: &Doc, ids: &Vec<NodeId>) -> (r: bool)
    ensures
        r == any_locked(*doc, ids@),
{
    let mut i: usize = 0;
    while i < ids.len()
        invariant
            i <= ids@.len(),
            forall|k: int| 0 <= k < i ==> can_edit(*doc, #[trigger] ids@[k]),
        decreases ids@.len() - i,
    {
        if !editable(doc, ids[i]) {
            assert(!can_edit(*doc, ids@[i as int]));
            return true;
        }
        i = i + 1;
    }
    false
}

/// The metadata marks a section: by its own word, or else by the imported type.
pub open spec fn marks_section(texts: Map<Seq<char>, Seq<char>>) -> bool {
    if texts.dom().contains("fanta_kind"@) {
        texts["fanta_kind"@] == "section"@
    } else {
        texts.dom().contains("figma_type"@) && texts["figma_type"@] == "SECTION"@
    }
}

pub fn is_section(node: &CanvasNode) -> (r: bool)
    ensures
        r == marks_section(crate::meta::json_texts(node.meta)),
{
    match text_member(&node.meta, "fanta_kind") {
        Some(kind) => same_text(kind.as_str(), "section"),
        None => match text_member(&node.meta, "figma_type") {
            Some(kind) => same_text(kind.as_str(), "SECTION"),
            None => false,
        },
    }
}

/// A component is drawn by this layer.
pub open spec fn draws_component(doc: Doc, id: NodeId) -> bool {
    exists|i: int| 0 <= i < doc.components@.len() && (#[trigger] doc.components@[i]).root == id
}

pub fn is_component_root(doc: &Doc, id: NodeId) -> (r: bool)
    ensures
        r == draws_component(*doc, id),
{
    let mut i: usize = 0;
    while i < doc.components.len()
        invariant
            i <= doc.components@.len(),
            forall|k: int| 0 <= k < i ==> (#[trigger] doc.components@[k]).root != id,
        decreases doc.components@.len() - i,
    {
        if doc.components[i].root == id {
            assert(doc.components@[i as int].root == id);
            return true;
        }
        i = i + 1;
    }
    false
}

/// Root of a component, by its id: the first definition counts.
pub open spec fn component_root(
    components: Seq<crate::document::ComponentDef>,
    id: crate::ids::ComponentId,
) -> Option<NodeId>
    decreases components.len(),
{
    if components.len() == 0 {
        None
    } else if components[0].id == id {
        Some(components[0].root)
    } else {
        component_root(components.drop_first(), id)
    }
}

pub fn root_of_component(doc: &Doc, id: crate::ids::ComponentId) -> (root: Option<NodeId>)
    ensures
        root == component_root(doc.components@, id),
{
    let mut i: usize = 0;
    assert(doc.components@.skip(0) =~= doc.components@);
    while i < doc.components.len()
        invariant
            i <= doc.components@.len(),
            component_root(doc.components@, id) == component_root(
                doc.components@.skip(i as int),
                id,
            ),
        decreases doc.components@.len() - i,
    {
        assert(doc.components@.skip(i as int).drop_first() =~= doc.components@.skip(i + 1));
        if doc.components[i].id == id {
            return Some(doc.components[i].root);
        }
        i = i + 1;
    }
    None
}

// ---------------------------------------------------------------------------
// Paints of a layer
// ---------------------------------------------------------------------------

/// The paints that a layer shows.
pub open spec fn shown_paints(data: NodeData) -> Seq<Fill> {
    match data {
        NodeData::Vector(vector) => vector.fills@,
        NodeData::Boolean(boolean) => boolean.fills@,
        NodeData::Group(group) => group.paints(),
        NodeData::Text(text) => seq![Fill::solid_spec(text.style.color)],
        NodeData::Bitmap(bitmap) => seq![bitmap_fill(bitmap)],
        _ => Seq::empty(),
    }
}

/// A picture layer as a paint.
pub open spec fn bitmap_fill(bitmap: BitmapNode) -> Fill {
    Fill::Image {
        asset: bitmap.asset,
        mode: bitmap.fit,
        opacity: Scalar { bits: crate::scalar::ONE },
        crop: bitmap.crop,
        scale: None,
        rotation: None,
        blend: BlendMode::Normal,
        adjust: ImageAdjust::none(),
    }
}

pub fn paints(data: &NodeData) -> (fills: FillList)
    ensures
        fills@ == shown_paints(*data),
{
    match data {
        NodeData::Vector(vector) => vector.fills.copy(),
        NodeData::Boolean(boolean) => boolean.fills.copy(),
        NodeData::Group(group) => {
            let mut fills = group.background_fills.copy();
            match &group.background {
                Some(background) => {
                    fills.insert(0, background.copy());
                    assert(fills@ =~= group.paints());
                },
                None => {},
            }
            fills
        },
        NodeData::Text(text) => FillList::one(Fill::solid(text.style.color)),
        NodeData::Bitmap(bitmap) => FillList::one(
            Fill::Image {
                asset: bitmap.asset,
                mode: bitmap.fit,
                opacity: Scalar { bits: crate::scalar::ONE },
                crop: bitmap.crop,
                scale: None,
                rotation: None,
                blend: BlendMode::Normal,
                adjust: ImageAdjust::none(),
            },
        ),
        _ => FillList::new(),
    }
}

/// The strokes that a layer shows.
pub open spec fn shown_strokes(data: NodeData) -> Seq<Stroke> {
    match data {
        NodeData::Vector(vector) => vector.strokes@,
        NodeData::Boolean(boolean) => boolean.strokes@,
        NodeData::Group(group) => group.strokes@,
        _ => Seq::empty(),
    }
}

fn strokes_of(data: &NodeData) -> (strokes: Arc<Vec<Stroke>>)
    ensures
        strokes@ == shown_strokes(*data),
{
    match data {
        NodeData::Vector(vector) => share(&vector.strokes),
        NodeData::Boolean(boolean) => share(&boolean.strokes),
        NodeData::Group(group) => share(&group.strokes),
        _ => Arc::new(Vec::new()),
    }
}

// ---------------------------------------------------------------------------
// Pasting properties
// ---------------------------------------------------------------------------

/// `new` is `old` with the look of the source and its own shape.
pub open spec fn restyled(old: NodeData, source: NodeData, new: NodeData) -> bool {
    match (old, new) {
        (NodeData::Vector(a), NodeData::Vector(b)) => {
            &&& b == (VectorNode { fills: b.fills, strokes: b.strokes, ..a })
            &&& b.fills@ == shown_paints(source)
            &&& b.strokes@ == shown_strokes(source)
        },
        (NodeData::Boolean(a), NodeData::Boolean(b)) => {
            &&& b.op == a.op
            &&& b.fills@ == shown_paints(source)
            &&& b.strokes@ == shown_strokes(source)
        },
        (NodeData::Group(a), NodeData::Group(b)) => {
            &&& b == (GroupNode {
                background: None,
                background_fills: b.background_fills,
                strokes: b.strokes,
                ..a
            })
            &&& b.background_fills@ == shown_paints(source)
            &&& b.strokes@ == shown_strokes(source)
        },
        (NodeData::Text(a), NodeData::Text(b)) => b == (TextNode {
            style: match source {
                NodeData::Text(text) => text.style,
                _ => a.style,
            },
            ..a
        }),
        _ => new == old,
    }
}

fn restyle(old: &NodeData, source: &NodeData) -> (new: NodeData)
    ensures
        restyled(*old, *source, new),
{
    let fills = paints(source);
    let strokes = strokes_of(source);
    match old.copy() {
        NodeData::Vector(value) => NodeData::Vector(VectorNode { fills, strokes, ..value }),
        NodeData::Boolean(value) => NodeData::Boolean(BooleanNode { fills, strokes, ..value }),
        NodeData::Group(value) => NodeData::Group(
            GroupNode { background: None, background_fills: fills, strokes, ..value },
        ),
        NodeData::Text(value) => {
            let style = match source {
                NodeData::Text(text) => text.style.copy(),
                _ => value.style.copy(),
            };
            NodeData::Text(TextNode { style, ..value })
        },
        other => other,
    }
}

/// The five operations that give one layer the look of another.
pub open spec fn restyles(
    operations: Seq<Operation>,
    node: CanvasNode,
    source: CanvasNode,
) -> bool {
    &&& operations.len() == 5
    &&& operations[0] matches Operation::ReplaceData { id, old, new } && id == node.id && old
        == node.data && restyled(*node.data, *source.data, *new)
    &&& operations[1] == (Operation::SetOpacity {
        id: node.id,
        old: node.opacity,
        new: source.opacity,
    })
    &&& operations[2] == (Operation::SetBlendMode {
        id: node.id,
        old: node.blend_mode,
        new: source.blend_mode,
    })
    &&& operations[3] == (Operation::SetEffects {
        id: node.id,
        old: node.effects,
        new: source.effects,
    })
    &&& operations[4] == (Operation::SetBlurs { id: node.id, old: node.blurs, new: source.blurs })
}

/// What pasting the look of a layer does.
pub open spec fn paste_outcome(
    doc: Doc,
    id: NodeId,
    source: CanvasNode,
    selection_roots: Seq<NodeId>,
    r: Result<Vec<Operation>, LayerError>,
) -> bool {
    match r {
        Err(error) => error == LayerError::SelectedLocked && any_locked(
            doc,
            target_ids(doc, id, selection_roots),
        ),
        Ok(operations) => {
            let ids = target_ids(doc, id, selection_roots);
            &&& !any_locked(doc, ids)
            &&& operations@.len() == 5 * ids.len()
            &&& forall|i: int|
                0 <= i < ids.len() ==> restyles(
                    operations@.subrange(5 * i, 5 * i + 5),
                    crate::scene::find(doc.nodes@, #[trigger] ids[i])->0,
                    source,
                )
        },
    }
}

/// Gives every target the look of the source; shape and place stay.
pub fn paste_properties(
    doc: &Doc,
    id: NodeId,
    source: &CanvasNode,
    selection_roots: &Vec<NodeId>,
) -> (r: Result<Vec<Operation>, LayerError>)
    ensures
        paste_outcome(*doc, id, *source, selection_roots@, r),
{
    let ids = targets(doc, id, selection_roots);
    let mut operations: Vec<Operation> = Vec::new();
    let mut i: usize = 0;
    while i < ids.len()
        invariant
            i <= ids@.len(),
            ids@ == target_ids(*doc, id, selection_roots@),
            operations@.len() == 5 * i,
            forall|k: int| 0 <= k < i ==> can_edit(*doc, #[trigger] ids@[k]),
            forall|k: int|
                0 <= k < i ==> restyles(
                    operations@.subrange(5 * k, 5 * k + 5),
                    crate::scene::find(doc.nodes@, #[trigger] ids@[k])->0,
                    *source,
                ),
        decreases ids@.len() - i,
    {
        let target = ids[i];
        if !editable(doc, target) {
            assert(!can_edit(*doc, ids@[i as int]));
            return Err(LayerError::SelectedLocked);
        }
        match doc.get(target) {
            Some(node) => {
                let ghost before = operations@;
                let data = restyle(&node.data, &source.data);
                operations.push(replace_data(node, data));
                operations.push(
                    Operation::SetOpacity { id: target, old: node.opacity, new: source.opacity },
                );
                operations.push(
                    Operation::SetBlendMode {
                        id: target,
                        old: node.blend_mode,
                        new: source.blend_mode,
                    },
                );
                operations.push(
                    Operation::SetEffects {
                        id: target,
                        old: share(&node.effects),
                        new: share(&source.effects),
                    },
                );
                operations.push(
                    Operation::SetBlurs {
                        id: target,
                        old: share(&node.blurs),
                        new: share(&source.blurs),
                    },
                );
                proof {
                    let five = operations@.subrange(5 * i, 5 * i + 5);
                    assert(restyles(five, *node, *source));
                    assert forall|k: int| 0 <= k < i + 1 implies restyles(
                        operations@.subrange(5 * k, 5 * k + 5),
                        crate::scene::find(doc.nodes@, #[trigger] ids@[k])->0,
                        *source,
                    ) by {
                        if k < i {
                            assert(operations@.subrange(5 * k, 5 * k + 5) =~= before.subrange(
                                5 * k,
                                5 * k + 5,
                            ));
                        }
                    }
                }
            },
            None => {
                return Err(LayerError::MissingLayer);
            },
        }
        i = i + 1;
    }
    Ok(operations)
}

// ---------------------------------------------------------------------------
// New layers of a list of operations
// ---------------------------------------------------------------------------

/// The list creates this layer.
pub open spec fn creates(operations: Seq<Operation>, id: NodeId) -> bool {
    exists|i: int|
        0 <= i < operations.len() && (#[trigger] operations[i] matches Operation::CreateNode {
            node,
        } && node.id == id)
}

/// The operation creates a layer that hangs below no created layer.
pub open spec fn creates_root(operations: Seq<Operation>, operation: Operation) -> bool {
    operation matches Operation::CreateNode { node } && !(node.parent matches Some(parent)
        && creates(operations, parent))
}

/// The layers created first in the list, those below created layers left out.
pub open spec fn root_creations(all: Seq<Operation>, operations: Seq<Operation>) -> Seq<NodeId>
    decreases operations.len(),
{
    if operations.len() == 0 {
        Seq::empty()
    } else {
        let rest = root_creations(all, operations.drop_last());
        match operations.last() {
            Operation::CreateNode { node } => if creates_root(all, operations.last()) {
                rest.push(node.id)
            } else {
                rest
            },
            _ => rest,
        }
    }
}

pub fn created_roots(operations: &Vec<Operation>) -> (roots: Vec<NodeId>)
    ensures
        roots@ == root_creations(operations@, operations@),
{
    let mut created: Vec<NodeId> = Vec::new();
    let mut i: usize = 0;
    while i < operations.len()
        invariant
            i <= operations@.len(),
            forall|id: NodeId| #[trigger]
                created@.contains(id) <==> creates(operations@.take(i as int), id),
        decreases operations@.len() - i,
    {
        let ghost before = created@;
        let ghost head = operations@.take(i as int);
        let ghost next = operations@.take(i + 1);
        assert(next =~= head.push(operations@[i as int]));
        if let Operation::CreateNode { node } = &operations[i] {
            created.push(node.id);
        }
        proof {
            assert forall|id: NodeId| #[trigger] created@.contains(id) <==> creates(next, id) by {
                assert(before.contains(id) <==> creates(head, id));
                if creates(head, id) {
                    let k = choose|k: int|
                        0 <= k < head.len() && (#[trigger] head[k] matches Operation::CreateNode {
                            node,
                        } && node.id == id);
                    assert(next[k] == head[k]);
                }
                if before.contains(id) {
                    let k = choose|k: int| 0 <= k < before.len() && before[k] == id;
                    assert(created@[k] == id);
                }
                if created@.contains(id) && !before.contains(id) {
                    let k = choose|k: int| 0 <= k < created@.len() && created@[k] == id;
                    assert(k == before.len());
                    assert(next[i as int] == operations@[i as int]);
                }
                if creates(next, id) && !creates(head, id) {
                    let k = choose|k: int|
                        0 <= k < next.len() && (#[trigger] next[k] matches Operation::CreateNode {
                            node,
                        } && node.id == id);
                    if k < i {
                        assert(head[k] == next[k]);
                    }
                    assert(k == i);
                    assert(created@[before.len() as int] == id);
                }
            }
        }
        i = i + 1;
    }
    assert(operations@.take(operations@.len() as int) =~= operations@);
    let mut roots: Vec<NodeId> = Vec::new();
    let mut j: usize = 0;
    assert(operations@.take(0) =~= Seq::<Operation>::empty());
    while j < operations.len()
        invariant
            j <= operations@.len(),
            forall|id: NodeId| #[trigger]
                created@.contains(id) <==> creates(operations@, id),
            roots@ == root_creations(operations@, operations@.take(j as int)),
        decreases operations@.len() - j,
    {
        proof {
            assert(operations@.take(j + 1).drop_last() =~= operations@.take(j as int));
            assert(operations@.take(j + 1).last() == operations@[j as int]);
        }
        if let Operation::CreateNode { node } = &operations[j] {
            let below = match node.parent {
                Some(parent) => holds(&created, parent),
                None => false,
            };
            if !below {
                roots.push(node.id);
            }
        }
        j = j + 1;
    }
    roots
}

/// A created root is created by the list, and its parent is not.
pub proof fn lemma_created_roots(all: Seq<Operation>, operations: Seq<Operation>, id: NodeId)
    requires
        root_creations(all, operations).contains(id),
    ensures
        exists|i: int|
            0 <= i < operations.len() && #[trigger] creates_root(all, operations[i])
                && (operations[i] matches Operation::CreateNode { node } && node.id == id),
    decreases operations.len(),
{
    let front = operations.drop_last();
    let rest = root_creations(all, front);
    if rest.contains(id) {
        lemma_created_roots(all, front, id);
        let i = choose|i: int|
            0 <= i < front.len() && #[trigger] creates_root(all, front[i])
                && (front[i] matches Operation::CreateNode { node } && node.id == id);
        assert(operations[i] == front[i]);
        assert(creates_root(all, operations[i]));
    } else {
        let i = operations.len() - 1;
        assert(operations[i] == operations.last());
        let found = root_creations(all, operations);
        let k = choose|k: int| 0 <= k < found.len() && found[k] == id;
        if k < rest.len() {
            assert(rest[k] == id);
        }
        assert(creates_root(all, operations[i]));
    }
}

// ---------------------------------------------------------------------------
// Cropping
// ---------------------------------------------------------------------------

/// One operation that puts `bitmap` in the place of a picture layer.
pub open spec fn puts_bitmap(
    operations: Seq<Operation>,
    node: CanvasNode,
    bitmap: BitmapNode,
) -> bool {
    operations.len() == 1 && replaces(operations[0], node, NodeData::Bitmap(bitmap))
}

/// The ratio is a positive number.
pub open spec fn good_ratio(ratio: Scalar) -> bool {
    ratio.finite() && Scalar::of(crate::scalar::ZERO).lt(ratio)
}

/// What cropping to a ratio does.
pub open spec fn crop_outcome(
    doc: Doc,
    id: NodeId,
    aspect: Option<Scalar>,
    window: CropWindow,
    height: Scalar,
    r: Result<Vec<Operation>, LayerError>,
) -> bool {
    if !can_edit(doc, id) {
        r == Err::<Vec<Operation>, LayerError>(LayerError::Locked)
    } else {
        let node = crate::scene::find(doc.nodes@, id)->0;
        match *node.data {
            NodeData::Bitmap(bitmap) => match aspect {
                Some(ratio) => if good_ratio(ratio) {
                    r is Ok && puts_bitmap(
                        r->Ok_0@,
                        node,
                        (BitmapNode {
                            crop: Some(window),
                            local_size: (Size { height: height, ..bitmap.local_size }),
                            ..bitmap
                        }),
                    )
                } else {
                    r == Err::<Vec<Operation>, LayerError>(LayerError::BadRatio)
                },
                None => r is Ok && puts_bitmap(
                    r->Ok_0@,
                    node,
                    (BitmapNode {
                        crop: None,
                        local_size: (Size { height: height, ..bitmap.local_size }),
                        ..bitmap
                    }),
                ),
            },
            _ => r == Err::<Vec<Operation>, LayerError>(LayerError::NotImage),
        }
    }
}

/// Crops a picture to an aspect ratio, or takes the crop away. `window` is the
/// centered window of that ratio and `height` the layer's new height.
pub fn crop(
    doc: &Doc,
    id: NodeId,
    aspect: Option<Scalar>,
    window: CropWindow,
    height: Scalar,
) -> (r: Result<Vec<Operation>, LayerError>)
    ensures
        crop_outcome(*doc, id, aspect, window, height, r),
{
    if !editable(doc, id) {
        return Err(LayerError::Locked);
    }
    match doc.get(id) {
        None => Err(LayerError::MissingLayer),
        Some(node) => match &*node.data {
            NodeData::Bitmap(bitmap) => {
                let crop = match aspect {
                    Some(ratio) => {
                        if !ratio.is_finite() || !Scalar::of(crate::scalar::ZERO).less(ratio) {
                            return Err(LayerError::BadRatio);
                        }
                        Some(window)
                    },
                    None => None,
                };
                let cropped = BitmapNode {
                    crop,
                    local_size: Size { height, ..bitmap.local_size },
                    ..*bitmap
                };
                let mut operations: Vec<Operation> = Vec::new();
                operations.push(replace_data(node, NodeData::Bitmap(cropped)));
                Ok(operations)
            },
            _ => Err(LayerError::NotImage),
        },
    }
}

/// Percentages of a window that lies inside the picture; `fits` says that
/// neither origin plus size goes past one hundred.
pub open spec fn good_percentages(percent: CropWindow, fits: bool) -> bool {
    let zero = Scalar::of(crate::scalar::ZERO);
    &&& percent.x.finite()
    &&& percent.y.finite()
    &&& percent.width.finite()
    &&& percent.height.finite()
    &&& zero.le(percent.x)
    &&& zero.le(percent.y)
    &&& zero.lt(percent.width)
    &&& zero.lt(percent.height)
    &&& fits
}

/// What cropping to a window does.
pub open spec fn crop_rectangle_outcome(
    doc: Doc,
    id: NodeId,
    percent: CropWindow,
    fits: bool,
    fractions: CropWindow,
    height: Scalar,
    r: Result<Vec<Operation>, LayerError>,
) -> bool {
    if !can_edit(doc, id) {
        r == Err::<Vec<Operation>, LayerError>(LayerError::Locked)
    } else if !good_percentages(percent, fits) {
        r == Err::<Vec<Operation>, LayerError>(LayerError::BadCrop)
    } else {
        let node = crate::scene::find(doc.nodes@, id)->0;
        match *node.data {
            NodeData::Bitmap(bitmap) => r is Ok && puts_bitmap(
                r->Ok_0@,
                node,
                (BitmapNode {
                    crop: Some(fractions),
                    local_size: (Size { height: height, ..bitmap.local_size }),
                    ..bitmap
                }),
            ),
            _ => r == Err::<Vec<Operation>, LayerError>(LayerError::NotImage),
        }
    }
}

/// Crops a picture to a window given in percent. `fractions` is the window in
/// fractions of the picture and `height` the layer's new height.
pub fn crop_rectangle(
    doc: &Doc,
    id: NodeId,
    percent: CropWindow,
    fits: bool,
    fractions: CropWindow,
    height: Scalar,
) -> (r: Result<Vec<Operation>, LayerError>)
    ensures
        crop_rectangle_outcome(*doc, id, percent, fits, fractions, height, r),
{
    if !editable(doc, id) {
        return Err(LayerError::Locked);
    }
    let zero = Scalar::of(crate::scalar::ZERO);
    let good = percent.x.is_finite() && percent.y.is_finite() && percent.width.is_finite()
        && percent.height.is_finite() && zero.at_most(percent.x) && zero.at_most(percent.y)
        && zero.less(percent.width) && zero.less(percent.height) && fits;
    if !good {
        return Err(LayerError::BadCrop);
    }
    match doc.get(id) {
        None => Err(LayerError::MissingLayer),
        Some(node) => match &*node.data {
            NodeData::Bitmap(bitmap) => {
                let cropped = BitmapNode {
                    crop: Some(fractions),
                    local_size: Size { height, ..bitmap.local_size },
                    ..*bitmap
                };
                let mut operations: Vec<Operation> = Vec::new();
                operations.push(replace_data(node, NodeData::Bitmap(cropped)));
                Ok(operations)
            },
            _ => Err(LayerError::NotImage),
        },
    }
}

// ---------------------------------------------------------------------------
// Auto layout
// ---------------------------------------------------------------------------

/// A group with its layout mode set or its layout removed. A group without a
/// size of its own keeps the one it shows.
pub open spec fn laid_out(
    group: GroupNode,
    mode: Option<LayoutMode>,
    local_size: Option<Size>,
) -> GroupNode {
    GroupNode {
        local_size: if group.local_size is None && group.clip_size is None {
            local_size
        } else {
            group.local_size
        },
        auto_layout: match mode {
            Some(mode) => Some(
                AutoLayout {
                    mode: mode,
                    ..match group.auto_layout {
                        Some(layout) => layout,
                        None => AutoLayout::plain(mode),
                    }
                },
            ),
            None => None,
        },
        ..group
    }
}

/// One operation that lays a group out.
pub open spec fn lays_out(
    operations: Seq<Operation>,
    node: CanvasNode,
    mode: Option<LayoutMode>,
    local_size: Option<Size>,
) -> bool {
    operations.len() == 1 && (*node.data matches NodeData::Group(group) && replaces(
        operations[0],
        node,
        NodeData::Group(laid_out(group, mode, local_size)),
    ))
}

fn lay_out_group(node: &CanvasNode, group: &GroupNode, mode: Option<LayoutMode>, local_size: Option<Size>) -> (operations: Vec<Operation>)
    requires
        *node.data == NodeData::Group(*group),
    ensures
        lays_out(operations@, *node, mode, local_size),
{
    let copy = group.copy();
    let size = if copy.local_size.is_none() && copy.clip_size.is_none() {
        local_size
    } else {
        copy.local_size
    };
    let layout = match mode {
        Some(mode) => {
            let base = match copy.auto_layout {
                Some(layout) => layout,
                None => AutoLayout::plain(mode),
            };
            Some(AutoLayout { mode, ..base })
        },
        None => None,
    };
    let changed = GroupNode { local_size: size, auto_layout: layout, ..copy };
    let mut operations: Vec<Operation> = Vec::new();
    operations.push(replace_data(node, NodeData::Group(changed)));
    operations
}

/// What the host measures and prepares for a layout command: the size that the
/// layer shows, the frame it would put the targets in, and the size that this
/// frame shows once it is there.
#[derive(Debug, PartialEq)]
pub struct LayoutFacts {
    pub local_size: Option<Size>,
    pub framed: Result<Grouped, LayerError>,
    pub framed_size: Option<Size>,
}

/// The frame around the targets, laid out, in a document that holds it.
pub open spec fn frame_outcome(
    scratch: crate::operations::Content,
    pages: Seq<NodeId>,
    framed: Grouped,
    mode: Option<LayoutMode>,
    size: Option<Size>,
    r: Result<Vec<Operation>, LayerError>,
) -> bool {
    if !crate::content_walk::may_edit(scratch.nodes, pages, framed.group) {
        r == Err::<Vec<Operation>, LayerError>(LayerError::Locked)
    } else {
        let node = scratch.nodes[framed.group];
        match *node.data {
            NodeData::Group(_) => r is Ok && r->Ok_0@.len() == framed.operations@.len() + 1
                && r->Ok_0@.take(framed.operations@.len() as int) == framed.operations@ && lays_out(
                r->Ok_0@.skip(framed.operations@.len() as int),
                node,
                mode,
                size,
            ),
            _ => r == Err::<Vec<Operation>, LayerError>(LayerError::NotGroup),
        }
    }
}

/// `can_edit` over what the document holds.
pub proof fn lemma_can_edit_content(doc: Doc, id: NodeId)
    requires
        doc.well_formed(),
    ensures
        can_edit(doc, id) == crate::content_walk::may_edit(
            doc.content().nodes,
            doc.pages@,
            id,
        ),
{
    crate::operations::lemma_find_is_content(doc, id);
    crate::content_walk::lemma_above(doc, id);
    let above = crate::scene::ancestors(doc.nodes@, id);
    if crate::scene::under_lock(doc.nodes@, id) {
        let i = choose|i: int| 0 <= i < above.len() && (#[trigger] above[i]).flags.locked;
        assert(crate::content_walk::above(doc.content().nodes, id)[i].flags.locked);
    }
}

/// Gives a group a layout, changes or removes it; other layers are put into a
/// new frame first.
pub fn auto_layout(
    doc: &Doc,
    id: NodeId,
    mode: Option<LayoutMode>,
    selection_roots: &Vec<NodeId>,
    facts: &LayoutFacts,
) -> (r: Result<Vec<Operation>, LayerError>)
    requires
        doc.well_formed(),
    ensures
        auto_layout_outcome(*doc, id, mode, selection_roots@, *facts, r),
{
    if !editable(doc, id) {
        return Err(LayerError::Locked);
    }
    let ids = targets(doc, id, selection_roots);
    if any_uneditable(doc, &ids) {
        return Err(LayerError::SelectedLocked);
    }
    match doc.get(id) {
        None => Err(LayerError::MissingLayer),
        Some(node) => {
            if let NodeData::Group(group) = &*node.data {
                return Ok(lay_out_group(node, group, mode, facts.local_size));
            }
            if mode.is_none() {
                return Err(LayerError::NotLayoutFrame);
            }
            match &facts.framed {
                Err(error) => Err(error.copy()),
                Ok(framed) => {
                    let mut scratch = doc.copy();
                    proof {
                        lemma_same_content(scratch, *doc);
                    }
                    match scratch.apply_all(&framed.operations) {
                        Err(_) => Err(LayerError::NotApplied),
                        Ok(_) => lay_out_frame(&scratch, framed, mode, facts.framed_size),
                    }
                },
            }
        },
    }
}

/// Copies hold the same.
pub proof fn lemma_same_content(a: Doc, b: Doc)
    requires
        a.same_as(b),
        b.well_formed(),
    ensures
        a.content() == b.content(),
        a.well_formed(),
        a.nodes@.len() == b.nodes@.len(),
{
}

fn lay_out_frame(
    scratch: &Doc,
    framed: &Grouped,
    mode: Option<LayoutMode>,
    size: Option<Size>,
) -> (r: Result<Vec<Operation>, LayerError>)
    requires
        scratch.well_formed(),
    ensures
        frame_outcome(
            scratch.content(),
            scratch.pages@,
            *framed,
            mode,
            size,
            r,
        ),
{
    proof {
        lemma_can_edit_content(*scratch, framed.group);
        crate::operations::lemma_find_is_content(*scratch, framed.group);
    }
    if !editable(scratch, framed.group) {
        return Err(LayerError::Locked);
    }
    match scratch.get(framed.group) {
        None => Err(LayerError::MissingLayer),
        Some(node) => match &*node.data {
            NodeData::Group(group) => {
                let mut operations: Vec<Operation> = Vec::new();
                extend(&mut operations, &framed.operations);
                assert(operations@ =~= framed.operations@);
                let layout = lay_out_group(node, group, mode, size);
                extend(&mut operations, &layout);
                assert(operations@.take(framed.operations@.len() as int) =~= framed.operations@);
                assert(operations@.skip(framed.operations@.len() as int) =~= layout@);
                Ok(operations)
            },
            _ => Err(LayerError::NotGroup),
        },
    }
}

/// What the layout command does, case by case. The frame is judged in a
/// document that holds it.
pub open spec fn auto_layout_outcome(
    doc: Doc,
    id: NodeId,
    mode: Option<LayoutMode>,
    selection_roots: Seq<NodeId>,
    facts: LayoutFacts,
    r: Result<Vec<Operation>, LayerError>,
) -> bool {
    if !can_edit(doc, id) {
        r == Err::<Vec<Operation>, LayerError>(LayerError::Locked)
    } else if any_locked(doc, target_ids(doc, id, selection_roots)) {
        r == Err::<Vec<Operation>, LayerError>(LayerError::SelectedLocked)
    } else {
        let node = crate::scene::find(doc.nodes@, id)->0;
        if *node.data is Group {
            r is Ok && lays_out(r->Ok_0@, node, mode, facts.local_size)
        } else if mode is None {
            r == Err::<Vec<Operation>, LayerError>(LayerError::NotLayoutFrame)
        } else {
            match facts.framed {
                Err(error) => r == Err::<Vec<Operation>, LayerError>(error),
                Ok(framed) => {
                    let operations = framed.operations@;
                    if crate::operations::carried(doc.content(), operations) {
                        frame_outcome(
                            crate::operations::all_applied(doc.content(), operations),
                            doc.pages@,
                            framed,
                            mode,
                            facts.framed_size,
                            r,
                        )
                    } else {
                        r == Err::<Vec<Operation>, LayerError>(LayerError::NotApplied)
                    }
                },
            }
        }
    }
}

/// What turning wrapping over does.
pub open spec fn wrap_outcome(
    doc: Doc,
    id: NodeId,
    r: Result<Vec<Operation>, LayerError>,
) -> bool {
    if !can_edit(doc, id) {
        r == Err::<Vec<Operation>, LayerError>(LayerError::Locked)
    } else {
        let node = crate::scene::find(doc.nodes@, id)->0;
        match *node.data {
            NodeData::Group(group) => r is Ok && r->Ok_0@.len() == 1 && replaces(
                r->Ok_0@[0],
                node,
                NodeData::Group(wrap_toggled(group)),
            ),
            _ => r == Err::<Vec<Operation>, LayerError>(LayerError::NotAutoLayoutFrame),
        }
    }
}

/// Turns wrapping of a frame's layout over; a frame without one gets one.
pub fn toggle_wrap(doc: &Doc, id: NodeId) -> (r: Result<Vec<Operation>, LayerError>)
    ensures
        wrap_outcome(*doc, id, r),
{
    if !editable(doc, id) {
        return Err(LayerError::Locked);
    }
    match doc.get(id) {
        None => Err(LayerError::MissingLayer),
        Some(node) => match &*node.data {
            NodeData::Group(group) => {
                let copy = group.copy();
                let layout = match copy.auto_layout {
                    Some(layout) => layout,
                    None => AutoLayout::plain(LayoutMode::Horizontal),
                };
                let changed = GroupNode {
                    auto_layout: Some(AutoLayout { wrap: !layout.wrap, ..layout }),
                    ..copy
                };
                let mut operations: Vec<Operation> = Vec::new();
                operations.push(replace_data(node, NodeData::Group(changed)));
                Ok(operations)
            },
            _ => Err(LayerError::NotAutoLayoutFrame),
        },
    }
}

pub open spec fn wrap_toggled(group: GroupNode) -> GroupNode {
    let layout = match group.auto_layout {
        Some(layout) => layout,
        None => AutoLayout::plain(LayoutMode::Horizontal),
    };
    GroupNode { auto_layout: Some(AutoLayout { wrap: !layout.wrap, ..layout }), ..group }
}

} // verus!
