//! Editing of text that lives inside a component instance.
//!
//! What an instance shows is a copy of its main component with the instance's
//! sparse overrides applied; the copies are no layers of the document. An edit
//! of such a text is an override on the instance: one for its content, one for
//! the color of its glyphs. The host expands the instance and composes
//! transforms; which copy is meant, and what is written, is decided here.

use std::sync::Arc;

use vstd::prelude::*;

use crate::document::{
    BoundProp, CanvasNode, Doc, InstanceNode, NodeData, Override, OverrideValue, TextNode,
    Transform,
};
use crate::ids::{same_ids, NodeId};
use crate::layer_context_ops::replace_data;
use crate::paint::{share, Color, Fill, FillList, Point};
use crate::scalar::Scalar;

verus! {

/// A copy of a layer of the main component, with the path that leads to it
/// there. Parents come before what is below them, in paint order.
#[derive(Debug, PartialEq)]
pub struct ExpandedNode {
    pub node: CanvasNode,
    pub def_path: Arc<Vec<NodeId>>,
}

/// What the host computes for a copy: where it is drawn, and the probed point
/// in its own coordinates.
#[derive(Clone, Copy, Debug, PartialEq, Eq, Structural)]
pub struct CloneProbe {
    pub world: Transform,
    pub local: Point,
}

/// A text inside an instance, addressed for editing.
#[derive(Debug, PartialEq)]
pub struct InstanceTextTarget {
    pub instance_id: NodeId,
    pub def_path: Arc<Vec<NodeId>>,
    pub text: TextNode,
    pub world: Transform,
}

/// A painted text inside an instance, for the properties panel.
#[derive(Debug, PartialEq)]
pub struct TextClone {
    pub def_path: Arc<Vec<NodeId>>,
    pub name: String,
    pub content: String,
}

// ---------------------------------------------------------------------------
// Expansions
// ---------------------------------------------------------------------------

/// The place of the copy with an id.
pub open spec fn clone_place(expanded: Seq<ExpandedNode>, id: NodeId) -> Option<int>
    decreases expanded.len(),
{
    if expanded.len() == 0 {
        None
    } else if expanded.last().node.id == id {
        Some(expanded.len() - 1)
    } else {
        clone_place(expanded.drop_last(), id)
    }
}

/// The place of the copy above another, where it has one above it.
pub open spec fn place_above(expanded: Seq<ExpandedNode>, at: int) -> Option<int> {
    match expanded[at].node.parent {
        Some(parent) => clone_place(expanded, parent),
        None => None,
    }
}

/// Parents come before what is below them.
pub open spec fn parents_first(expanded: Seq<ExpandedNode>) -> bool {
    forall|at: int|
        0 <= at < expanded.len() ==> (#[trigger] place_above(expanded, at) matches Some(above)
            ==> above < at)
}

/// The copy shows nothing by itself.
pub open spec fn invisible(node: CanvasNode) -> bool {
    node.flags.hidden || node.opacity.le(Scalar::of(crate::scalar::ZERO))
}

/// Neither the copy nor anything above it is hidden or fully transparent.
pub open spec fn painted(expanded: Seq<ExpandedNode>, at: int) -> bool
    decreases at,
{
    !invisible(expanded[at].node) && match place_above(expanded, at) {
        Some(above) => 0 <= above < at ==> painted(expanded, above),
        None => true,
    }
}

/// The transforms from the root's child down to the copy. The root's own is
/// left out: the instance takes its place.
pub open spec fn transform_chain(expanded: Seq<ExpandedNode>, at: int) -> Seq<Transform>
    decreases at,
{
    if expanded[at].node.parent is None {
        Seq::empty()
    } else {
        match place_above(expanded, at) {
            Some(above) => if 0 <= above < at {
                transform_chain(expanded, above).push(expanded[at].node.transform)
            } else {
                seq![expanded[at].node.transform]
            },
            None => seq![expanded[at].node.transform],
        }
    }
}

proof fn lemma_place_in_range(expanded: Seq<ExpandedNode>, id: NodeId)
    ensures
        clone_place(expanded, id) matches Some(at) ==> 0 <= at < expanded.len()
            && expanded[at].node.id == id,
    decreases expanded.len(),
{
    if expanded.len() > 0 && expanded.last().node.id != id {
        lemma_place_in_range(expanded.drop_last(), id);
    }
}

fn find_clone(expanded: &Vec<ExpandedNode>, id: NodeId) -> (place: Option<usize>)
    ensures
        match clone_place(expanded@, id) {
            Some(at) => place matches Some(found) && found == at && found < expanded@.len(),
            None => place is None,
        },
{
    let mut n: usize = expanded.len();
    assert(expanded@.take(n as int) =~= expanded@);
    while n > 0
        invariant
            n <= expanded@.len(),
            clone_place(expanded@.take(n as int), id) == clone_place(expanded@, id),
        decreases n,
    {
        proof {
            assert(expanded@.take(n as int).drop_last() =~= expanded@.take(n - 1));
            assert(expanded@.take(n as int).last() == expanded@[n - 1]);
        }
        if expanded[n - 1].node.id == id {
            return Some(n - 1);
        }
        n = n - 1;
    }
    None
}

/// Whether parents come before what is below them.
pub fn has_parents_first(expanded: &Vec<ExpandedNode>) -> (r: bool)
    ensures
        r == parents_first(expanded@),
{
    let mut i: usize = 0;
    while i < expanded.len()
        invariant
            i <= expanded@.len(),
            forall|at: int|
                0 <= at < i ==> (#[trigger] place_above(expanded@, at) matches Some(above)
                    ==> above < at),
        decreases expanded@.len() - i,
    {
        if let Some(parent) = expanded[i].node.parent {
            if let Some(above) = find_clone(expanded, parent) {
                if above >= i {
                    assert(place_above(expanded@, i as int) == Some(above as int));
                    return false;
                }
            }
        }
        i = i + 1;
    }
    true
}

fn clone_is_painted(expanded: &Vec<ExpandedNode>, at: usize) -> (r: bool)
    requires
        parents_first(expanded@),
        at < expanded@.len(),
    ensures
        r == painted(expanded@, at as int),
{
    let mut cursor: usize = at;
    let zero = Scalar::of(crate::scalar::ZERO);
    loop
        invariant
            parents_first(expanded@),
            cursor < expanded@.len(),
            at < expanded@.len(),
            zero == Scalar::of(crate::scalar::ZERO),
            painted(expanded@, at as int) == painted(expanded@, cursor as int),
        decreases cursor,
    {
        let node = &expanded[cursor].node;
        if node.flags.hidden || node.opacity.at_most(zero) {
            return false;
        }
        match node.parent {
            None => {
                return true;
            },
            Some(parent) => match find_clone(expanded, parent) {
                None => {
                    return true;
                },
                Some(above) => {
                    assert(place_above(expanded@, cursor as int) == Some(above as int));
                    cursor = above;
                },
            },
        }
    }
}

/// The transforms that lead from the instance to a copy, outermost first.
pub fn clone_transforms(expanded: &Vec<ExpandedNode>, at: usize) -> (chain: Vec<Transform>)
    requires
        parents_first(expanded@),
        at < expanded@.len(),
    ensures
        chain@ == transform_chain(expanded@, at as int),
    decreases at,
{
    let node = &expanded[at].node;
    match node.parent {
        None => {
            let none: Vec<Transform> = Vec::new();
            assert(none@ =~= Seq::<Transform>::empty());
            none
        },
        Some(parent) => match find_clone(expanded, parent) {
            None => {
                let mut one: Vec<Transform> = Vec::new();
                one.push(node.transform);
                assert(one@ =~= seq![node.transform]);
                one
            },
            Some(above) => {
                assert(place_above(expanded@, at as int) == Some(above as int));
                let mut chain = clone_transforms(expanded, above);
                chain.push(node.transform);
                chain
            },
        },
    }
}

/// The instance that is to be expanded, and whether the host still has to lay
/// the copies out: it has not where the file brought their final form along.
pub open spec fn expansion_plan(doc: Doc, id: NodeId) -> Option<bool> {
    match crate::scene::find(doc.nodes@, id) {
        Some(node) => match *node.data {
            NodeData::Instance(instance) => Some(instance.derived@.len() == 0),
            _ => None,
        },
        None => None,
    }
}

pub fn plan_expansion(doc: &Doc, id: NodeId) -> (lay_out: Option<bool>)
    ensures
        lay_out == expansion_plan(*doc, id),
{
    match doc.get(id) {
        Some(node) => match &*node.data {
            NodeData::Instance(instance) => Some(instance.derived.len() == 0),
            _ => None,
        },
        None => None,
    }
}

// ---------------------------------------------------------------------------
// Texts under a point, and all texts
// ---------------------------------------------------------------------------

/// The point lies in the box of the text, edges included.
pub open spec fn in_box(local: Point, text: TextNode) -> bool {
    let zero = Scalar::of(crate::scalar::ZERO);
    &&& zero.le(local.x)
    &&& local.x.le(text.local_size.width)
    &&& zero.le(local.y)
    &&& local.y.le(text.local_size.height)
}

/// The copy is a painted text under the point.
pub open spec fn text_hit(
    expanded: Seq<ExpandedNode>,
    probes: Seq<CloneProbe>,
    at: int,
) -> bool {
    *expanded[at].node.data matches NodeData::Text(text) && painted(expanded, at)
        && probes[at].world.finite() && in_box(probes[at].local, text)
}

/// The last painted of the first `n` copies that is a text under the point.
pub open spec fn topmost_hit(
    expanded: Seq<ExpandedNode>,
    probes: Seq<CloneProbe>,
    n: int,
) -> Option<int>
    decreases n,
{
    if n <= 0 {
        None
    } else if text_hit(expanded, probes, n - 1) {
        Some(n - 1)
    } else {
        topmost_hit(expanded, probes, n - 1)
    }
}

/// The text that a click on an instance edits: the topmost painted one under
/// the point.
pub fn text_target_at(
    doc: &Doc,
    instance_id: NodeId,
    expanded: &Vec<ExpandedNode>,
    probes: &Vec<CloneProbe>,
) -> (target: Option<InstanceTextTarget>)
    requires
        parents_first(expanded@),
        probes@.len() == expanded@.len(),
    ensures
        match topmost_hit(expanded@, probes@, expanded@.len() as int) {
            Some(at) if expansion_plan(*doc, instance_id) is Some => target matches Some(found) && {
                &&& found.instance_id == instance_id
                &&& found.def_path == expanded@[at].def_path
                &&& *expanded@[at].node.data == NodeData::Text(found.text)
                &&& found.world == probes@[at].world
            },
            _ => target is None,
        },
{
    if plan_expansion(doc, instance_id).is_none() {
        return None;
    }
    let zero = Scalar::of(crate::scalar::ZERO);
    let mut n: usize = expanded.len();
    while n > 0
        invariant
            n <= expanded@.len(),
            parents_first(expanded@),
            probes@.len() == expanded@.len(),
            zero == Scalar::of(crate::scalar::ZERO),
            expansion_plan(*doc, instance_id) is Some,
            topmost_hit(expanded@, probes@, n as int) == topmost_hit(
                expanded@,
                probes@,
                expanded@.len() as int,
            ),
        decreases n,
    {
        let at: usize = n - 1;
        if let NodeData::Text(text) = &*expanded[at].node.data {
            let probe = probes[at];
            if clone_is_painted(expanded, at) && probe.world.is_finite() && zero.at_most(
                probe.local.x,
            ) && probe.local.x.at_most(text.local_size.width) && zero.at_most(probe.local.y)
                && probe.local.y.at_most(text.local_size.height) {
                return Some(
                    InstanceTextTarget {
                        instance_id,
                        def_path: share(&expanded[at].def_path),
                        text: text.copy(),
                        world: probe.world,
                    },
                );
            }
        }
        n = n - 1;
    }
    None
}

/// The places of the painted texts among the first `n` copies.
pub open spec fn painted_texts(expanded: Seq<ExpandedNode>, n: int) -> Seq<int>
    decreases n,
{
    if n <= 0 {
        Seq::empty()
    } else {
        let rest = painted_texts(expanded, n - 1);
        if *expanded[n - 1].node.data is Text && painted(expanded, n - 1) {
            rest.push(n - 1)
        } else {
            rest
        }
    }
}

/// The row describes a copy.
pub open spec fn describes(row: TextClone, copy: ExpandedNode) -> bool {
    &&& row.def_path == copy.def_path
    &&& row.name == copy.node.name
    &&& *copy.node.data matches NodeData::Text(text) && row.content == text.content
}

/// All painted texts of an instance, in paint order.
pub fn text_clones(
    doc: &Doc,
    instance_id: NodeId,
    expanded: &Vec<ExpandedNode>,
) -> (rows: Vec<TextClone>)
    requires
        parents_first(expanded@),
    ensures
        if expansion_plan(*doc, instance_id) is None {
            rows@.len() == 0
        } else {
            let places = painted_texts(expanded@, expanded@.len() as int);
            rows@.len() == places.len() && forall|k: int|
                0 <= k < places.len() ==> describes(rows@[k], expanded@[#[trigger] places[k]])
        },
{
    let mut rows: Vec<TextClone> = Vec::new();
    if plan_expansion(doc, instance_id).is_none() {
        return rows;
    }
    let mut i: usize = 0;
    while i < expanded.len()
        invariant
            i <= expanded@.len(),
            parents_first(expanded@),
            rows@.len() == painted_texts(expanded@, i as int).len(),
            forall|k: int|
                0 <= k < rows@.len() ==> describes(
                    rows@[k],
                    expanded@[#[trigger] painted_texts(expanded@, i as int)[k]],
                ),
        decreases expanded@.len() - i,
    {
        let ghost head = painted_texts(expanded@, i as int);
        let ghost before = rows@;
        if let NodeData::Text(text) = &*expanded[i].node.data {
            if clone_is_painted(expanded, i) {
                rows.push(
                    TextClone {
                        def_path: share(&expanded[i].def_path),
                        name: expanded[i].node.name.clone(),
                        content: text.content.clone(),
                    },
                );
                proof {
                    let next = painted_texts(expanded@, i + 1);
                    assert(next == head.push(i as int));
                    assert forall|k: int| 0 <= k < rows@.len() implies describes(
                        rows@[k],
                        expanded@[#[trigger] next[k]],
                    ) by {
                        if k < head.len() {
                            assert(next[k] == head[k]);
                            assert(rows@[k] == before[k]);
                        }
                    }
                }
            }
        }
        i = i + 1;
    }
    rows
}

/// What a click edits is among the rows of the panel: it is painted.
pub proof fn lemma_target_is_painted(
    expanded: Seq<ExpandedNode>,
    probes: Seq<CloneProbe>,
    n: int,
)
    requires
        0 <= n <= expanded.len(),
    ensures
        topmost_hit(expanded, probes, n) matches Some(at) ==> 0 <= at < n && painted_texts(
            expanded,
            n,
        ).contains(at),
    decreases n,
{
    if n > 0 {
        lemma_target_is_painted(expanded, probes, n - 1);
        let rest = painted_texts(expanded, n - 1);
        let all = painted_texts(expanded, n);
        if let Some(at) = topmost_hit(expanded, probes, n) {
            if text_hit(expanded, probes, n - 1) {
                assert(all[rest.len() as int] == at);
            } else {
                let k = choose|k: int| 0 <= k < rest.len() && rest[k] == at;
                assert(all[k] == at);
            }
        }
    }
}

/// A text below something hidden is no target.
pub proof fn lemma_hidden_text_is_no_target(
    expanded: Seq<ExpandedNode>,
    probes: Seq<CloneProbe>,
    at: int,
)
    requires
        parents_first(expanded),
        0 <= at < expanded.len(),
        invisible(expanded[at].node) || (place_above(expanded, at) matches Some(above)
            && 0 <= above && invisible(expanded[above].node)),
    ensures
        !text_hit(expanded, probes, at),
{
    if let Some(above) = place_above(expanded, at) {
        assert(!invisible(expanded[at].node) ==> !painted(expanded, above));
    }
}

// ---------------------------------------------------------------------------
// Overrides
// ---------------------------------------------------------------------------

/// What an override says, apart from how it is stored.
pub ghost enum ValueModel {
    Text(Seq<char>),
    Fills(Seq<Fill>),
    Visible(bool),
}

pub ghost struct OverrideModel {
    pub path: Seq<NodeId>,
    pub prop: BoundProp,
    pub value: ValueModel,
}

pub open spec fn value_model(value: OverrideValue) -> ValueModel {
    match value {
        OverrideValue::Text { value } => ValueModel::Text(value@),
        OverrideValue::Fills { fills } => ValueModel::Fills(fills@),
        OverrideValue::Visible { value } => ValueModel::Visible(value),
    }
}

pub open spec fn model_of(item: Override) -> OverrideModel {
    OverrideModel {
        path: item.target_path@,
        prop: item.target_prop,
        value: value_model(item.value),
    }
}

pub open spec fn models_of(list: Seq<Override>) -> Seq<OverrideModel> {
    list.map_values(|item: Override| model_of(item))
}

/// The place of the first override at a path and property.
pub open spec fn slot_of(list: Seq<OverrideModel>, path: Seq<NodeId>, prop: BoundProp) -> Option<
    int,
>
    decreases list.len(),
{
    if list.len() == 0 {
        None
    } else {
        match slot_of(list.drop_last(), path, prop) {
            Some(at) => Some(at),
            None => if list.last().path == path && list.last().prop == prop {
                Some(list.len() - 1)
            } else {
                None
            },
        }
    }
}

/// The list with one override put in the place of the one at its path and
/// property, or behind all others.
pub open spec fn upserted(list: Seq<OverrideModel>, item: OverrideModel) -> Seq<OverrideModel> {
    match slot_of(list, item.path, item.prop) {
        Some(at) => list.update(at, item),
        None => list.push(item),
    }
}

/// The override that sets a text's content.
pub open spec fn content_model(path: Seq<NodeId>, content: Seq<char>) -> OverrideModel {
    OverrideModel { path: path, prop: BoundProp::TextContent, value: ValueModel::Text(content) }
}

/// The override that sets the color of a text's glyphs.
pub open spec fn color_model(path: Seq<NodeId>, color: Color) -> OverrideModel {
    OverrideModel {
        path: path,
        prop: BoundProp::FillColor { index: 0 },
        value: ValueModel::Fills(seq![Fill::solid_spec(color)]),
    }
}

/// The overrides of one edit, content before color.
pub open spec fn edit_models(
    path: Seq<NodeId>,
    content: Option<Seq<char>>,
    color: Option<Color>,
) -> Seq<OverrideModel> {
    let first = match content {
        Some(content) => seq![content_model(path, content)],
        None => Seq::empty(),
    };
    match color {
        Some(color) => first.push(color_model(path, color)),
        None => first,
    }
}

/// A list with several overrides put in, one after the other.
pub open spec fn all_upserted(list: Seq<OverrideModel>, items: Seq<OverrideModel>) -> Seq<
    OverrideModel,
>
    decreases items.len(),
{
    if items.len() == 0 {
        list
    } else {
        upserted(all_upserted(list, items.drop_last()), items.last())
    }
}

proof fn lemma_slot_in_range(list: Seq<OverrideModel>, path: Seq<NodeId>, prop: BoundProp)
    ensures
        slot_of(list, path, prop) matches Some(at) ==> 0 <= at < list.len() && list[at].path == path
            && list[at].prop == prop,
    decreases list.len(),
{
    if list.len() > 0 {
        lemma_slot_in_range(list.drop_last(), path, prop);
    }
}

fn override_index(overrides: &Vec<Override>, path: &Vec<NodeId>, prop: BoundProp) -> (at: Option<
    usize,
>)
    ensures
        match slot_of(models_of(overrides@), path@, prop) {
            Some(slot) => at matches Some(found) && found == slot && found < overrides@.len(),
            None => at is None,
        },
{
    let mut i: usize = 0;
    assert(models_of(overrides@).take(0) =~= Seq::<OverrideModel>::empty());
    while i < overrides.len()
        invariant
            i <= overrides@.len(),
            slot_of(models_of(overrides@).take(i as int), path@, prop) is None,
        decreases overrides@.len() - i,
    {
        let ghost list = models_of(overrides@);
        proof {
            assert(list.take(i + 1).drop_last() =~= list.take(i as int));
            assert(list.take(i + 1).last() == model_of(overrides@[i as int]));
        }
        if same_ids(&overrides[i].target_path, path) && overrides[i].target_prop == prop {
            proof {
                lemma_slot_stays(list, path@, prop, i + 1);
            }
            return Some(i);
        }
        i = i + 1;
    }
    assert(models_of(overrides@).take(overrides@.len() as int) =~= models_of(overrides@));
    None
}

proof fn lemma_slot_stays(list: Seq<OverrideModel>, path: Seq<NodeId>, prop: BoundProp, n: int)
    requires
        0 <= n <= list.len(),
        slot_of(list.take(n), path, prop) is Some,
    ensures
        slot_of(list, path, prop) == slot_of(list.take(n), path, prop),
    decreases list.len() - n,
{
    if n == list.len() {
        assert(list.take(n) =~= list);
    } else {
        assert(list.take(n + 1).drop_last() =~= list.take(n));
        lemma_slot_stays(list, path, prop, n + 1);
    }
}

fn text_content_override(path: &Arc<Vec<NodeId>>, content: &str) -> (item: Override)
    ensures
        model_of(item) == content_model(path@, content@),
{
    Override {
        target_path: share(path),
        target_prop: BoundProp::TextContent,
        value: OverrideValue::Text { value: content.to_owned() },
    }
}

fn text_color_override(path: &Arc<Vec<NodeId>>, color: Color) -> (item: Override)
    ensures
        model_of(item) == color_model(path@, color),
{
    Override {
        target_path: share(path),
        target_prop: BoundProp::FillColor { index: 0 },
        value: OverrideValue::Fills { fills: FillList::one(Fill::solid(color)) },
    }
}

/// Puts an override in the place of the one at its path and property, or behind
/// all others.
pub fn upsert(overrides: &mut Vec<Override>, item: Override)
    ensures
        models_of(final(overrides)@) == upserted(models_of(old(overrides)@), model_of(item)),
{
    let ghost before = models_of(overrides@);
    match override_index(overrides, &item.target_path, item.target_prop) {
        Some(i) => {
            overrides.set(i, item);
            assert(models_of(overrides@) =~= before.update(i as int, model_of(item)));
        },
        None => {
            overrides.push(item);
            assert(models_of(overrides@) =~= before.push(model_of(item)));
        },
    }
}

/// An undoable change of one override slot of an instance.
#[derive(Debug, PartialEq)]
pub struct SetInstanceOverride {
    pub id: NodeId,
    pub index: usize,
    pub old: Option<Override>,
    pub new: Option<Override>,
}

/// The change puts an override into a list, and records what stood there.
pub open spec fn records_upsert(
    operation: SetInstanceOverride,
    id: NodeId,
    list: Seq<OverrideModel>,
    item: OverrideModel,
) -> bool {
    &&& operation.id == id
    &&& operation.new matches Some(new) && model_of(new) == item
    &&& match slot_of(list, item.path, item.prop) {
        Some(at) => operation.index == at && (operation.old matches Some(old) && model_of(old)
            == list[at]),
        None => operation.index == list.len() && operation.old is None,
    }
}

/// The changes put overrides into a list one after the other.
pub open spec fn records_upserts(
    operations: Seq<SetInstanceOverride>,
    id: NodeId,
    list: Seq<OverrideModel>,
    items: Seq<OverrideModel>,
) -> bool {
    operations.len() == items.len() && forall|k: int|
        0 <= k < items.len() ==> records_upsert(
            operations[k],
            id,
            all_upserted(list, items.take(k)),
            #[trigger] items[k],
        )
}

/// The list once a change of a slot has been carried out.
pub open spec fn slot_changed(
    list: Seq<OverrideModel>,
    operation: SetInstanceOverride,
) -> Seq<OverrideModel> {
    match operation.new {
        Some(new) => if operation.index < list.len() {
            list.update(operation.index as int, model_of(new))
        } else {
            list.push(model_of(new))
        },
        None => list,
    }
}

/// The list before a change of a slot.
pub open spec fn slot_restored(
    list: Seq<OverrideModel>,
    operation: SetInstanceOverride,
) -> Seq<OverrideModel> {
    match operation.old {
        Some(old) => list.update(operation.index as int, model_of(old)),
        None => list.drop_last(),
    }
}

pub open spec fn slots_changed(
    list: Seq<OverrideModel>,
    operations: Seq<SetInstanceOverride>,
) -> Seq<OverrideModel>
    decreases operations.len(),
{
    if operations.len() == 0 {
        list
    } else {
        slot_changed(slots_changed(list, operations.drop_last()), operations.last())
    }
}

/// The changes taken back, the last first.
pub open spec fn slots_restored(
    list: Seq<OverrideModel>,
    operations: Seq<SetInstanceOverride>,
) -> Seq<OverrideModel>
    decreases operations.len(),
{
    if operations.len() == 0 {
        list
    } else {
        slots_restored(slot_restored(list, operations.last()), operations.drop_last())
    }
}

fn copy_overrides(list: &Vec<Override>) -> (copy: Vec<Override>)
    ensures
        copy@ == list@,
{
    let mut copy: Vec<Override> = Vec::new();
    let mut i: usize = 0;
    while i < list.len()
        invariant
            i <= list@.len(),
            copy@ == list@.take(i as int),
        decreases list@.len() - i,
    {
        copy.push(list[i].copy());
        assert(copy@ =~= list@.take(i + 1));
        i = i + 1;
    }
    assert(list@.take(list@.len() as int) =~= list@);
    copy
}

fn record_upsert(
    operations: &mut Vec<SetInstanceOverride>,
    working: &mut Vec<Override>,
    id: NodeId,
    item: Override,
)
    ensures
        models_of(final(working)@) == upserted(models_of(old(working)@), model_of(item)),
        final(operations)@.len() == old(operations)@.len() + 1,
        final(operations)@.drop_last() == old(operations)@,
        records_upsert(
            final(operations)@.last(),
            id,
            models_of(old(working)@),
            model_of(item),
        ),
{
    let existing = override_index(working, &item.target_path, item.target_prop);
    let (index, stood): (usize, Option<Override>) = match existing {
        Some(i) => (i, Some(working[i].copy())),
        None => (working.len(), None),
    };
    operations.push(SetInstanceOverride { id, index, old: stood, new: Some(item.copy()) });
    assert(operations@.drop_last() =~= old(operations)@);
    upsert(working, item);
}

/// The overrides of an instance, where the layer is one.
pub open spec fn instance_overrides(doc: Doc, id: NodeId) -> Option<Seq<Override>> {
    match crate::scene::find(doc.nodes@, id) {
        Some(node) => match *node.data {
            NodeData::Instance(instance) => Some(instance.overrides@),
            _ => None,
        },
        None => None,
    }
}

pub open spec fn text_view(text: Option<&str>) -> Option<Seq<char>> {
    match text {
        Some(text) => Some(text@),
        None => None,
    }
}

/// The changes that commit an edit of a text's content, of its color, or of
/// both. Indices follow the list as it grows, so that two new overrides get
/// slots of their own.
pub fn commit_ops(
    doc: &Doc,
    instance_id: NodeId,
    def_path: &Arc<Vec<NodeId>>,
    content: Option<&str>,
    color: Option<Color>,
) -> (operations: Vec<SetInstanceOverride>)
    ensures
        match instance_overrides(*doc, instance_id) {
            None => operations@.len() == 0,
            Some(overrides) => records_upserts(
                operations@,
                instance_id,
                models_of(overrides),
                edit_models(def_path@, text_view(content), color),
            ),
        },
{
    let mut operations: Vec<SetInstanceOverride> = Vec::new();
    let mut working = match doc.get(instance_id) {
        None => {
            return operations;
        },
        Some(node) => match &*node.data {
            NodeData::Instance(instance) => copy_overrides(&instance.overrides),
            _ => {
                return operations;
            },
        },
    };
    let ghost base = models_of(working@);
    let ghost items = edit_models(def_path@, text_view(content), color);
    if let Some(content) = content {
        record_upsert(
            &mut operations,
            &mut working,
            instance_id,
            text_content_override(def_path, content),
        );
        proof {
            assert(items.take(0) =~= Seq::<OverrideModel>::empty());
            assert(items[0] == content_model(def_path@, content@));
            let one = items.take(1);
            assert(one.drop_last() =~= Seq::<OverrideModel>::empty());
            assert(one.last() == items[0]);
            assert(all_upserted(base, Seq::<OverrideModel>::empty()) == base);
            assert(all_upserted(base, one) == upserted(base, items[0]));
        }
    }
    let ghost middle = operations@;
    if let Some(color) = color {
        let ghost list = models_of(working@);
        record_upsert(
            &mut operations,
            &mut working,
            instance_id,
            text_color_override(def_path, color),
        );
        proof {
            assert(items.last() == color_model(def_path@, color));
            assert(operations@.last() == operations@[operations@.len() - 1]);
            if content is None {
                assert(items.take(0) =~= Seq::<OverrideModel>::empty());
            } else {
                assert(operations@[0] == operations@.drop_last()[0]);
            }
        }
    }
    proof {
        assert forall|k: int| 0 <= k < items.len() implies records_upsert(
            operations@[k],
            instance_id,
            all_upserted(base, items.take(k)),
            #[trigger] items[k],
        ) by {}
    }
    operations
}

/// The overrides of an instance before an edit; none for other layers.
pub fn snapshot_overrides(doc: &Doc, instance_id: NodeId) -> (overrides: Vec<Override>)
    ensures
        overrides@ == (match instance_overrides(*doc, instance_id) {
            Some(overrides) => overrides,
            None => Seq::empty(),
        }),
{
    match doc.get(instance_id) {
        Some(node) => match &*node.data {
            NodeData::Instance(instance) => copy_overrides(&instance.overrides),
            _ => Vec::new(),
        },
        None => Vec::new(),
    }
}

/// Writes the overrides of an instance without recording the change.
pub fn set_overrides_transient(doc: &mut Doc, instance_id: NodeId, overrides: Vec<Override>)
    requires
        old(doc).well_formed(),
    ensures
        final(doc).well_formed(),
        if instance_overrides(*old(doc), instance_id) is None {
            *final(doc) == *old(doc)
        } else {
            let node = old(doc).content().nodes[instance_id];
            &&& final(doc).keeps_rest(*old(doc))
            &&& final(doc).content().nodes.dom() == old(doc).content().nodes.dom()
            &&& forall|other: NodeId| #[trigger]
                old(doc).content().nodes.dom().contains(other) && other != instance_id
                    ==> final(doc).content().nodes[other] == old(doc).content().nodes[other]
            &&& final(doc).content().nodes[instance_id] == (CanvasNode {
                data: final(doc).content().nodes[instance_id].data,
                ..node
            })
            &&& *node.data matches NodeData::Instance(before) && (
            *final(doc).content().nodes[instance_id].data matches NodeData::Instance(after)
                && after == (InstanceNode { overrides: after.overrides, ..before })
                && after.overrides@ == overrides@)
        },
        instance_overrides(*old(doc), instance_id) is Some ==> instance_overrides(
            *final(doc),
            instance_id,
        ) == Some(overrides@),
{
    proof {
        crate::operations::lemma_find_is_content(*doc, instance_id);
    }
    let operation = match doc.get(instance_id) {
        None => {
            return ;
        },
        Some(node) => match &*node.data {
            NodeData::Instance(instance) => replace_data(
                node,
                NodeData::Instance(
                    InstanceNode { overrides: Arc::new(overrides), ..instance.copy() },
                ),
            ),
            _ => {
                return ;
            },
        },
    };
    let _applied = doc.apply(&operation);
    proof {
        crate::operations::lemma_find_is_content(*doc, instance_id);
        assert(doc.content().nodes.dom() =~= old(doc).content().nodes.dom());
    }
}

/// The overrides that a preview shows: those before the edit, with the content
/// and, where it changes, the color put in.
pub fn preview_overrides(
    base: &Vec<Override>,
    def_path: &Arc<Vec<NodeId>>,
    content: &str,
    color: Option<Color>,
) -> (overrides: Vec<Override>)
    ensures
        models_of(overrides@) == all_upserted(
            models_of(base@),
            edit_models(def_path@, Some(content@), color),
        ),
{
    let mut overrides = copy_overrides(base);
    let ghost items = edit_models(def_path@, Some(content@), color);
    upsert(&mut overrides, text_content_override(def_path, content));
    proof {
        reveal_with_fuel(all_upserted, 3);
        let one = seq![content_model(def_path@, content@)];
        assert(one.drop_last() =~= Seq::<OverrideModel>::empty());
        assert(models_of(overrides@) == all_upserted(models_of(base@), one));
        if color is Some {
            assert(items.drop_last() =~= one);
        } else {
            assert(items =~= one);
        }
    }
    if let Some(color) = color {
        upsert(&mut overrides, text_color_override(def_path, color));
    }
    overrides
}

// ---------------------------------------------------------------------------
// Laws
// ---------------------------------------------------------------------------

proof fn lemma_slot_round_trip(
    operation: SetInstanceOverride,
    id: NodeId,
    list: Seq<OverrideModel>,
    item: OverrideModel,
)
    requires
        records_upsert(operation, id, list, item),
    ensures
        slot_changed(list, operation) == upserted(list, item),
        slot_restored(upserted(list, item), operation) == list,
{
    lemma_slot_in_range(list, item.path, item.prop);
    assert(slot_changed(list, operation) =~= upserted(list, item));
    assert(slot_restored(upserted(list, item), operation) =~= list);
}

/// Committed changes, carried out in order, leave the overrides that putting the
/// items in leaves; a preview shows the same.
pub proof fn lemma_commit_is_preview(
    operations: Seq<SetInstanceOverride>,
    id: NodeId,
    base: Seq<OverrideModel>,
    items: Seq<OverrideModel>,
)
    requires
        records_upserts(operations, id, base, items),
    ensures
        slots_changed(base, operations) == all_upserted(base, items),
    decreases items.len(),
{
    if items.len() > 0 {
        let n = items.len() - 1;
        lemma_records_front(operations, id, base, items);
        lemma_commit_is_preview(operations.drop_last(), id, base, items.drop_last());
        let list = all_upserted(base, items.drop_last());
        assert(items.take(n) =~= items.drop_last());
        assert(records_upsert(operations[n], id, list, items[n]));
        lemma_slot_round_trip(operations[n], id, list, items[n]);
    }
}

proof fn lemma_records_front(
    operations: Seq<SetInstanceOverride>,
    id: NodeId,
    base: Seq<OverrideModel>,
    items: Seq<OverrideModel>,
)
    requires
        records_upserts(operations, id, base, items),
        items.len() > 0,
    ensures
        records_upserts(operations.drop_last(), id, base, items.drop_last()),
{
    let front = items.drop_last();
    assert forall|k: int| 0 <= k < front.len() implies records_upsert(
        operations.drop_last()[k],
        id,
        all_upserted(base, front.take(k)),
        #[trigger] front[k],
    ) by {
        assert(front.take(k) =~= items.take(k));
        assert(front[k] == items[k]);
    }
}

/// Committed changes can be taken back.
pub proof fn lemma_commit_undone(
    operations: Seq<SetInstanceOverride>,
    id: NodeId,
    base: Seq<OverrideModel>,
    items: Seq<OverrideModel>,
)
    requires
        records_upserts(operations, id, base, items),
    ensures
        slots_restored(slots_changed(base, operations), operations) == base,
    decreases items.len(),
{
    if items.len() > 0 {
        let n = items.len() - 1;
        let front = operations.drop_last();
        let list = all_upserted(base, items.drop_last());
        lemma_records_front(operations, id, base, items);
        lemma_commit_is_preview(front, id, base, items.drop_last());
        lemma_commit_undone(front, id, base, items.drop_last());
        assert(items.take(n) =~= items.drop_last());
        assert(records_upsert(operations[n], id, list, items[n]));
        lemma_slot_round_trip(operations[n], id, list, items[n]);
        assert(operations.last() == operations[n]);
        assert(slots_changed(base, operations) == upserted(list, items[n]));
        assert(slots_restored(upserted(list, items[n]), operations) == slots_restored(
            slot_restored(upserted(list, items[n]), operations[n]),
            front,
        ));
    }
}

/// Putting an override in leaves every slot of another path or property alone.
pub proof fn lemma_upsert_keeps_others(list: Seq<OverrideModel>, item: OverrideModel, at: int)
    requires
        0 <= at < list.len(),
        list[at].path != item.path || list[at].prop != item.prop,
    ensures
        at < upserted(list, item).len(),
        upserted(list, item)[at] == list[at],
{
    lemma_slot_in_range(list, item.path, item.prop);
}

/// An override that was put in is found, and putting another in its place adds
/// no slot.
pub proof fn lemma_upsert_replaces(
    list: Seq<OverrideModel>,
    first: OverrideModel,
    second: OverrideModel,
)
    requires
        first.path == second.path,
        first.prop == second.prop,
    ensures
        upserted(upserted(list, first), second).len() == upserted(list, first).len(),
        upserted(upserted(list, first), second) == upserted(list, second),
{
    lemma_slot_in_range(list, first.path, first.prop);
    lemma_slot_after_upsert(list, first);
    assert(upserted(upserted(list, first), second) =~= upserted(list, second));
}

proof fn lemma_slot_after_upsert(list: Seq<OverrideModel>, item: OverrideModel)
    ensures
        slot_of(upserted(list, item), item.path, item.prop) == Some(
            match slot_of(list, item.path, item.prop) {
                Some(at) => at,
                None => list.len() as int,
            },
        ),
{
    match slot_of(list, item.path, item.prop) {
        None => {
            assert(list.push(item).drop_last() =~= list);
        },
        Some(at) => {
            lemma_slot_update(list, item, at);
        },
    }
}

proof fn lemma_slot_update(list: Seq<OverrideModel>, item: OverrideModel, at: int)
    requires
        slot_of(list, item.path, item.prop) == Some(at),
    ensures
        slot_of(list.update(at, item), item.path, item.prop) == Some(at),
    decreases list.len(),
{
    lemma_slot_in_range(list, item.path, item.prop);
    let changed = list.update(at, item);
    if list.len() > 0 {
        let front = list.drop_last();
        if slot_of(front, item.path, item.prop) is Some {
            lemma_slot_in_range(front, item.path, item.prop);
            lemma_slot_update(front, item, at);
            assert(changed.drop_last() =~= front.update(at, item));
        } else {
            assert(changed.drop_last() =~= front);
        }
    }
}

/// Content and color of one text take slots of their own.
pub proof fn lemma_content_and_color_apart(
    list: Seq<OverrideModel>,
    path: Seq<NodeId>,
    content: Seq<char>,
    color: Color,
)
    ensures
        ({
            let both = all_upserted(list, edit_models(path, Some(content), Some(color)));
            &&& both.contains(content_model(path, content))
            &&& both.contains(color_model(path, color))
        }),
{
    reveal_with_fuel(all_upserted, 3);
    let items = edit_models(path, Some(content), Some(color));
    let one = seq![content_model(path, content)];
    assert(items.drop_last() =~= one);
    assert(one.drop_last() =~= Seq::<OverrideModel>::empty());
    let first = upserted(list, content_model(path, content));
    let both = upserted(first, color_model(path, color));
    lemma_slot_in_range(list, path, BoundProp::TextContent);
    lemma_slot_after_upsert(list, content_model(path, content));
    let at = slot_of(first, path, BoundProp::TextContent)->0;
    lemma_slot_in_range(first, path, BoundProp::TextContent);
    assert(first[at] == content_model(path, content));
    lemma_upsert_keeps_others(first, color_model(path, color), at);
    assert(both[at] == content_model(path, content));
    lemma_slot_after_upsert(first, color_model(path, color));
    lemma_slot_in_range(first, path, BoundProp::FillColor { index: 0 });
    let to = slot_of(both, path, BoundProp::FillColor { index: 0 })->0;
    assert(both[to] == color_model(path, color));
}

} // verus!
