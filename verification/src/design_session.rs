//! The inspector's state between gestures: the edit that is under way, the open
//! crop, what was last shown, and the export settings.

use std::sync::Arc;

use vstd::prelude::*;
use vstd::string::*;

use crate::design_paint_view::{media_paint_view_data, CropPlace, MediaView, VideoPreview};
use crate::design_paints::{pattern_source_candidates, PatternCandidate};
use crate::design_snapshot::{
    build_design_view_data, DesignViewData, Inspection, PageView, SnapshotFacts,
};
use crate::design_targets::{current_page_id, DesignTarget};
use crate::document::{Blur, CanvasNode, Doc, NodeData, Shadow, Transform};
use crate::ids::{AssetId, NodeId};
use crate::operations::Operation;
use crate::paint::share;
use crate::panel::{record, OpenDocument};
use crate::scalar::Scalar;
use crate::switches::{supported_paint_types, PaintType};
use crate::text::{decimal_text_wide, same_text};

verus! {

// ---------------------------------------------------------------------------
// Snapshots of a layer
// ---------------------------------------------------------------------------

/// The parts of a layer that a gesture may change before it is committed.
#[derive(Debug, PartialEq)]
pub struct NodeSnapshot {
    pub id: NodeId,
    pub transform: Transform,
    pub opacity: Scalar,
    pub data: Arc<NodeData>,
    pub effects: Arc<Vec<Shadow>>,
    pub blurs: Arc<Vec<Blur>>,
}

impl NodeSnapshot {
    pub fn copy(&self) -> (r: Self)
        ensures
            r == *self,
    {
        NodeSnapshot {
            id: self.id,
            transform: self.transform,
            opacity: self.opacity,
            data: share(&self.data),
            effects: share(&self.effects),
            blurs: share(&self.blurs),
        }
    }
}

/// The snapshot of a layer.
pub open spec fn snapshot_of(node: CanvasNode) -> NodeSnapshot {
    NodeSnapshot {
        id: node.id,
        transform: node.transform,
        opacity: node.opacity,
        data: node.data,
        effects: node.effects,
        blurs: node.blurs,
    }
}

pub fn take_snapshot(node: &CanvasNode) -> (snapshot: NodeSnapshot)
    ensures
        snapshot == snapshot_of(*node),
{
    NodeSnapshot {
        id: node.id,
        transform: node.transform,
        opacity: node.opacity,
        data: share(&node.data),
        effects: share(&node.effects),
        blurs: share(&node.blurs),
    }
}

/// A layer with the parts of a snapshot put back.
pub open spec fn put_back(node: CanvasNode, snapshot: NodeSnapshot) -> CanvasNode {
    CanvasNode {
        transform: snapshot.transform,
        opacity: snapshot.opacity,
        data: snapshot.data,
        effects: snapshot.effects,
        blurs: snapshot.blurs,
        ..node
    }
}

/// The content with a snapshot put back; a layer that is gone stays gone.
pub open spec fn restored(
    content: crate::operations::Content,
    snapshot: NodeSnapshot,
) -> crate::operations::Content {
    if content.nodes.dom().contains(snapshot.id) {
        crate::operations::Content {
            nodes: content.nodes.insert(
                snapshot.id,
                put_back(content.nodes[snapshot.id], snapshot),
            ),
            ..content
        }
    } else {
        content
    }
}

/// Puts a snapshot back.
pub fn restore_snapshot(doc: &mut Doc, snapshot: &NodeSnapshot)
    requires
        old(doc).well_formed(),
    ensures
        final(doc).well_formed(),
        final(doc).content() == restored(old(doc).content(), *snapshot),
        final(doc).keeps_rest(*old(doc)),
{
    let ghost start = doc.content();
    let id = snapshot.id;
    proof {
        crate::operations::lemma_find_is_content(*doc, id);
    }
    let (transform, opacity, data, effects, blurs) = match doc.get(id) {
        Some(node) => (
            node.transform,
            node.opacity,
            share(&node.data),
            share(&node.effects),
            share(&node.blurs),
        ),
        None => {
            return ;
        },
    };
    let ghost node = start.nodes[id];
    proof {
        crate::operations::lemma_doc_filed(*doc);
        assert(node.id == id);
    }
    let _first = doc.apply(
        &Operation::SetTransform { id, old: transform, new: snapshot.transform },
    );
    let _second = doc.apply(&Operation::SetOpacity { id, old: opacity, new: snapshot.opacity });
    let _third = doc.apply(
        &Operation::ReplaceData { id, old: data, new: share(&snapshot.data) },
    );
    let _fourth = doc.apply(
        &Operation::SetEffects { id, old: effects, new: share(&snapshot.effects) },
    );
    let _fifth = doc.apply(&Operation::SetBlurs { id, old: blurs, new: share(&snapshot.blurs) });
    assert(doc.content().nodes =~= restored(start, *snapshot).nodes);
}

/// The operation leaves no layer with a transform that is not finite.
pub open spec fn keeps_finite(operation: Operation) -> bool {
    operation matches Operation::SetTransform { new, .. } ==> new.finite()
}

/// The operations of a list that leave no layer with a transform that is not
/// finite.
pub open spec fn finite_operations(operations: Seq<Operation>) -> Seq<Operation>
    decreases operations.len(),
{
    if operations.len() == 0 {
        Seq::empty()
    } else {
        let rest = finite_operations(operations.drop_last());
        if keeps_finite(operations.last()) {
            rest.push(operations.last())
        } else {
            rest
        }
    }
}

/// Leaves out the operations that would give a layer a transform that is not
/// finite.
pub fn finite_transform_operations(operations: &Vec<Operation>) -> (kept: Vec<Operation>)
    ensures
        kept@ == finite_operations(operations@),
{
    let mut kept: Vec<Operation> = Vec::new();
    let mut i: usize = 0;
    assert(operations@.take(0) =~= Seq::<Operation>::empty());
    while i < operations.len()
        invariant
            i <= operations@.len(),
            kept@ == finite_operations(operations@.take(i as int)),
        decreases operations@.len() - i,
    {
        proof {
            assert(operations@.take(i + 1).drop_last() =~= operations@.take(i as int));
            assert(operations@.take(i + 1).last() == operations@[i as int]);
        }
        let finite = match &operations[i] {
            Operation::SetTransform { new, .. } => new.is_finite(),
            _ => true,
        };
        if finite {
            kept.push(operations[i].copy());
        }
        i = i + 1;
    }
    assert(operations@.take(operations@.len() as int) =~= operations@);
    kept
}

/// The content once the operations of a list have been tried in order; one that
/// cannot be carried out changes nothing.
pub open spec fn previewed(
    content: crate::operations::Content,
    operations: Seq<Operation>,
) -> crate::operations::Content
    decreases operations.len(),
{
    if operations.len() == 0 {
        content
    } else {
        let before = previewed(content, operations.drop_last());
        if crate::operations::applicable(before, operations.last()) {
            crate::operations::applied(before, operations.last())
        } else {
            before
        }
    }
}

fn preview_operations(doc: &mut Doc, operations: &Vec<Operation>)
    requires
        old(doc).well_formed(),
    ensures
        final(doc).well_formed(),
        final(doc).content() == previewed(old(doc).content(), operations@),
        final(doc).keeps_rest(*old(doc)),
{
    let ghost start = *doc;
    let mut i: usize = 0;
    assert(operations@.take(0) =~= Seq::<Operation>::empty());
    while i < operations.len()
        invariant
            i <= operations@.len(),
            doc.well_formed(),
            doc.keeps_rest(start),
            doc.content() == previewed(start.content(), operations@.take(i as int)),
        decreases operations@.len() - i,
    {
        proof {
            assert(operations@.take(i + 1).drop_last() =~= operations@.take(i as int));
            assert(operations@.take(i + 1).last() == operations@[i as int]);
        }
        let _done = doc.apply(&operations[i]);
        i = i + 1;
    }
    assert(operations@.take(operations@.len() as int) =~= operations@);
}

/// The operations of a list up to the first that cannot be carried out.
pub open spec fn taken_list(
    content: crate::operations::Content,
    operations: Seq<Operation>,
) -> Seq<Operation>
    decreases operations.len(),
{
    if operations.len() == 0 || crate::operations::carried(content, operations) {
        operations
    } else {
        taken_list(content, operations.drop_last())
    }
}

/// The content once a list of operations has been carried out up to the first
/// that cannot be.
pub open spec fn taken(
    content: crate::operations::Content,
    operations: Seq<Operation>,
) -> crate::operations::Content {
    crate::operations::all_applied(content, taken_list(content, operations))
}

proof fn lemma_taken_stops(
    content: crate::operations::Content,
    operations: Seq<Operation>,
    n: int,
)
    requires
        0 <= n < operations.len(),
        crate::operations::carried(content, operations.take(n)),
        !crate::operations::applicable(
            crate::operations::all_applied(content, operations.take(n)),
            operations[n],
        ),
    ensures
        taken_list(content, operations) == operations.take(n),
        !crate::operations::carried(content, operations),
    decreases operations.len(),
{
    if crate::operations::carried(content, operations) {
        crate::apply::lemma_carried_prefix(content, operations, n + 1);
        assert(operations.take(n + 1).drop_last() =~= operations.take(n));
        assert(operations.take(n + 1).last() == operations[n]);
    }
    let front = operations.drop_last();
    if n == front.len() {
        assert(front =~= operations.take(n));
        assert(taken_list(content, front) == front);
    } else {
        assert(front.take(n) =~= operations.take(n));
        lemma_taken_stops(content, front, n);
    }
}

/// Whether operations that were handed over count as carried out: a single one
/// must have been, several always do.
pub open spec fn counts(
    content: crate::operations::Content,
    operations: Seq<Operation>,
) -> bool {
    operations.len() > 1 || operations.len() == 1 && crate::operations::applicable(
        content,
        operations[0],
    )
}

/// What handing operations over to the open document does. Those that would leave
/// a transform that is not finite are left out.
pub open spec fn ops_outcome(
    before: Option<OpenDocument>,
    after: Option<OpenDocument>,
    operations: Seq<Operation>,
    applied: bool,
) -> bool {
    let kept = finite_operations(operations);
    match before {
        Some(open) => if open.editable && kept.len() > 0 {
            &&& applied == counts(open.doc.content(), kept)
            &&& after matches Some(now) && {
                &&& now.editable
                &&& now.doc.content() == taken(open.doc.content(), kept)
                &&& now.doc.keeps_rest(open.doc)
                &&& crate::panel::recorded(
                    open,
                    now,
                    None,
                    taken_list(open.doc.content(), kept),
                )
            }
        } else {
            !applied && after == before
        },
        None => !applied && after == before,
    }
}

/// The open document is in order.
pub open spec fn in_order(open: Option<OpenDocument>) -> bool {
    open matches Some(open) ==> open.doc.well_formed()
}

/// Hands operations over to the open document, as one step.
pub fn design_apply_ops(open: &mut Option<OpenDocument>, operations: &Vec<Operation>) -> (applied:
    bool)
    requires
        in_order(*old(open)),
    ensures
        in_order(*final(open)),
        ops_outcome(*old(open), *final(open), operations@, applied),
{
    let operations = finite_transform_operations(operations);
    if operations.len() == 0 {
        return false;
    }
    let ghost before = *open;
    match open.take() {
        None => false,
        Some(document) => {
            let mut document = document;
            if !document.editable {
                *open = Some(document);
                return false;
            }
            let ghost first = document;
            let ghost start = document.doc.content();
            let mut step: Vec<Operation> = Vec::new();
            let mut i: usize = 0;
            let mut stopped = false;
            assert(operations@.take(0) =~= Seq::<Operation>::empty());
            while i < operations.len() && !stopped
                invariant
                    i <= operations@.len(),
                    start == first.doc.content(),
                    document.editable,
                    document.history == first.history,
                    document.doc.well_formed(),
                    document.doc.keeps_rest(first.doc),
                    crate::operations::carried(start, operations@.take(i as int)),
                    document.doc.content() == crate::operations::all_applied(
                        start,
                        operations@.take(i as int),
                    ),
                    step@ == operations@.take(i as int),
                    stopped ==> i < operations@.len() && !crate::operations::applicable(
                        document.doc.content(),
                        operations@[i as int],
                    ),
                decreases operations@.len() - i, if stopped { 0int } else { 1int },
            {
                proof {
                    assert(operations@.take(i + 1).drop_last() =~= operations@.take(i as int));
                    assert(operations@.take(i + 1).last() == operations@[i as int]);
                }
                match document.doc.apply(&operations[i]) {
                    Ok(_) => {
                        step.push(operations[i].copy());
                        assert(step@ =~= operations@.take(i + 1));
                        i = i + 1;
                    },
                    Err(_) => {
                        stopped = true;
                    },
                }
            }
            proof {
                if stopped {
                    lemma_taken_stops(start, operations@, i as int);
                } else {
                    assert(operations@.take(i as int) =~= operations@);
                }
                if operations@.len() == 1 {
                    assert(operations@.drop_last() =~= Seq::<Operation>::empty());
                    assert(operations@.take(0) =~= Seq::<Operation>::empty());
                    reveal_with_fuel(crate::operations::carried, 2);
                    reveal_with_fuel(crate::operations::all_applied, 2);
                }
            }
            record(&mut document.history, None, step);
            *open = Some(document);
            operations.len() > 1 || !stopped
        },
    }
}

// ---------------------------------------------------------------------------
// Exports
// ---------------------------------------------------------------------------

#[derive(Clone, Copy, Debug, PartialEq, Eq, Structural)]
pub enum ExportFormat {
    Png,
    Jpeg,
    Svg,
    Pdf,
}

#[derive(Clone, Copy, Debug, PartialEq, Eq, Structural)]
pub enum ExportSizing {
    Scale(Scalar),
    Width(Scalar),
    Height(Scalar),
}

#[derive(Debug, PartialEq)]
pub struct ExportSettings {
    pub format: ExportFormat,
    pub sizing: ExportSizing,
    pub suffix: String,
}

impl ExportSettings {
    pub fn copy(&self) -> (r: Self)
        ensures
            r == *self,
    {
        ExportSettings { format: self.format, sizing: self.sizing, suffix: self.suffix.clone() }
    }
}

#[derive(Debug, PartialEq)]
pub struct ExportConfiguration {
    pub id: String,
    pub settings: ExportSettings,
}

impl ExportConfiguration {
    pub fn copy(&self) -> (r: Self)
        ensures
            r == *self,
    {
        ExportConfiguration { id: self.id.clone(), settings: self.settings.copy() }
    }
}

fn copy_exports(list: &Vec<ExportConfiguration>) -> (r: Vec<ExportConfiguration>)
    ensures
        r@ == list@,
{
    let mut r: Vec<ExportConfiguration> = Vec::new();
    let mut i: usize = 0;
    while i < list.len()
        invariant
            i <= list@.len(),
            r@ == list@.take(i as int),
        decreases list@.len() - i,
    {
        r.push(list[i].copy());
        assert(r@ =~= list@.take(i + 1));
        i = i + 1;
    }
    assert(list@.take(list@.len() as int) =~= list@);
    r
}

/// The id of the export settings that were made under a number.
pub open spec fn export_id(number: u64) -> Seq<char> {
    "fanta-export-"@ + crate::text::decimal(number as nat)
}

/// New export settings: a picture at its own size, with no suffix.
pub open spec fn new_export(number: u64, made: ExportConfiguration) -> bool {
    &&& made.id@ == export_id(number)
    &&& made.settings.format == ExportFormat::Png
    &&& made.settings.sizing == ExportSizing::Scale(Scalar::of(crate::scalar::ONE))
    &&& made.settings.suffix@.len() == 0
}

fn make_export(number: u64) -> (made: ExportConfiguration)
    ensures
        new_export(number, made),
{
    let mut id = "fanta-export-".to_owned();
    let digits = decimal_text_wide(number);
    id.append(digits.as_str());
    ExportConfiguration {
        id,
        settings: ExportSettings {
            format: ExportFormat::Png,
            sizing: ExportSizing::Scale(Scalar::of(crate::scalar::ONE)),
            suffix: String::new(),
        },
    }
}

#[derive(Clone, Copy, Debug, PartialEq, Eq, Structural)]
pub enum EditPhase {
    Begin,
    Preview,
    Commit,
    Cancel,
}

/// The settings without those of an id.
pub open spec fn without_export(list: Seq<ExportConfiguration>, id: Seq<char>) -> Seq<
    ExportConfiguration,
>
    decreases list.len(),
{
    if list.len() == 0 {
        Seq::empty()
    } else {
        let rest = without_export(list.drop_last(), id);
        if list.last().id@ == id {
            rest
        } else {
            rest.push(list.last())
        }
    }
}

/// The first settings of an id are changed, all others stay.
pub open spec fn export_changed(
    list: Seq<ExportConfiguration>,
    id: Seq<char>,
    settings: ExportSettings,
) -> Seq<ExportConfiguration>
    decreases list.len(),
{
    if list.len() == 0 {
        list
    } else if list[0].id@ == id {
        list.update(0, ExportConfiguration { settings: settings, ..list[0] })
    } else {
        seq![list[0]] + export_changed(list.skip(1), id, settings)
    }
}

proof fn lemma_export_changed_at(
    list: Seq<ExportConfiguration>,
    id: Seq<char>,
    settings: ExportSettings,
    at: int,
)
    requires
        0 <= at <= list.len(),
        forall|k: int| 0 <= k < at ==> (#[trigger] list[k]).id@ != id,
        at < list.len() ==> list[at].id@ == id,
    ensures
        export_changed(list, id, settings) == (if at < list.len() {
            list.update(at, ExportConfiguration { settings: settings, ..list[at] })
        } else {
            list
        }),
    decreases at,
{
    if at > 0 {
        let rest = list.skip(1);
        assert(list[0].id@ != id);
        assert forall|k: int| 0 <= k < at - 1 implies (#[trigger] rest[k]).id@ != id by {
            assert(rest[k] == list[k + 1]);
        }
        if at < list.len() {
            assert(rest[at - 1] == list[at]);
        }
        lemma_export_changed_at(rest, id, settings, at - 1);
        if at < list.len() {
            assert(seq![list[0]] + rest.update(
                at - 1,
                ExportConfiguration { settings: settings, ..list[at] },
            ) =~= list.update(at, ExportConfiguration { settings: settings, ..list[at] }));
        } else {
            assert(seq![list[0]] + rest =~= list);
        }
    }
}

// ---------------------------------------------------------------------------
// The adapter
// ---------------------------------------------------------------------------

#[derive(Debug, PartialEq)]
pub struct EditSession {
    pub node: NodeId,
    pub snapshot: NodeSnapshot,
}

/// How the crop tool stands. Zoom and aspect ratio are missing until the tool
/// has said them.
#[derive(Clone, Copy, Debug, PartialEq, Eq, Structural)]
pub struct CropTool {
    pub transform: Transform,
    pub zoom: Option<Scalar>,
    pub aspect_ratio: Option<u32>,
}

#[derive(Clone, Copy, Debug, PartialEq, Eq, Structural)]
pub struct CropSession {
    pub place: CropPlace,
    pub tool: CropTool,
}

/// How far a video's preview has come, in tenths of a second.
#[derive(Clone, Copy, Debug, PartialEq, Eq, Structural)]
pub struct PreviewSignature {
    pub asset: AssetId,
    pub duration_tenths: u32,
    pub current_tenths: u32,
    pub playing: bool,
    pub status: u8,
}

/// What was shown last; while it stays the same there is nothing to show anew.
#[derive(Debug, PartialEq)]
pub struct EchoKey {
    pub selection: Vec<NodeId>,
    pub generation: u64,
    pub editable: bool,
    pub page_index: Option<usize>,
    pub previews: Vec<PreviewSignature>,
}

#[derive(Debug, PartialEq)]
pub struct DesignAdapter {
    pub last_echo: Option<EchoKey>,
    pub session: Option<EditSession>,
    pub crop: Option<CropSession>,
    pub fonts_dirty: bool,
    pub exports: Vec<ExportConfiguration>,
    pub export_snapshot: Option<Vec<ExportConfiguration>>,
    pub next_export_id: u64,
}

/// The session is for the layer.
pub open spec fn session_for(session: Option<EditSession>, id: NodeId) -> Option<NodeSnapshot> {
    match session {
        Some(session) => if session.node == id {
            Some(session.snapshot)
        } else {
            None
        },
        None => None,
    }
}

/// The content with a snapshot put back, where there is one.
pub open spec fn restored_if(
    content: crate::operations::Content,
    snapshot: Option<NodeSnapshot>,
) -> crate::operations::Content {
    match snapshot {
        Some(snapshot) => restored(content, snapshot),
        None => content,
    }
}

/// The open document with a snapshot put back, where there is one.
pub open spec fn open_restored(
    before: Option<OpenDocument>,
    after: Option<OpenDocument>,
    snapshot: Option<NodeSnapshot>,
) -> bool {
    match before {
        None => after is None,
        Some(open) => after matches Some(now) && {
            &&& now.editable == open.editable
            &&& now.history == open.history
            &&& now.doc.content() == restored_if(open.doc.content(), snapshot)
            &&& now.doc.keeps_rest(open.doc)
        },
    }
}

/// The adapter once all edits under way are given up.
pub open spec fn gave_up(before: DesignAdapter, after: DesignAdapter) -> bool {
    &&& after.session is None
    &&& after.crop is None
    &&& after.last_echo is None
    &&& after.fonts_dirty == before.fonts_dirty
    &&& after.next_export_id == before.next_export_id
    &&& after.export_snapshot is None
    &&& after.exports@ == (match before.export_snapshot {
        Some(snapshot) => snapshot@,
        None => before.exports@,
    })
}

/// The snapshot of the session under way.
pub open spec fn any_snapshot(session: Option<EditSession>) -> Option<NodeSnapshot> {
    match session {
        Some(session) => Some(session.snapshot),
        None => None,
    }
}

/// The session that a gesture on a layer of the open document begins with.
pub open spec fn session_on(open: Option<OpenDocument>, id: NodeId) -> Option<EditSession> {
    match open {
        Some(open) => match crate::scene::find(open.doc.nodes@, id) {
            Some(node) => if open.editable {
                Some(EditSession { node: id, snapshot: snapshot_of(node) })
            } else {
                None
            },
            None => None,
        },
        None => None,
    }
}

/// Everything but the session is as it was.
pub open spec fn same_but_session(before: DesignAdapter, after: DesignAdapter) -> bool {
    after == (DesignAdapter { session: after.session, ..before })
}

/// What a builder of operations may give on a document.
pub open spec fn builds_of<F: FnOnce(&Doc) -> Vec<Operation>>(build: F) -> spec_fn(
    Doc,
    Vec<Operation>,
) -> bool {
    |seen: Doc, operations: Vec<Operation>| build.ensures((&seen,), operations)
}

/// A document in which an edit is built, and what is built there.
pub open spec fn built_on(
    builds: spec_fn(Doc, Vec<Operation>) -> bool,
    before: OpenDocument,
    snapshot: Option<NodeSnapshot>,
    seen: Doc,
    operations: Vec<Operation>,
) -> bool {
    &&& seen.well_formed()
    &&& seen.content() == restored_if(before.doc.content(), snapshot)
    &&& seen.keeps_rest(before.doc)
    &&& builds(seen, operations)
}

/// What a preview does: the layer goes back to how the gesture found it, and then
/// the edit is tried.
pub open spec fn preview_outcome(
    builds: spec_fn(Doc, Vec<Operation>) -> bool,
    snapshot: Option<NodeSnapshot>,
    before: Option<OpenDocument>,
    after: Option<OpenDocument>,
) -> bool {
    match (before, snapshot) {
        (Some(open), Some(kept)) => if open.editable {
            exists|seen: Doc, operations: Vec<Operation>| #[trigger]
                built_on(builds, open, snapshot, seen, operations) && (after matches Some(now) && {
                    &&& now.editable
                    &&& now.history == open.history
                    &&& now.doc.content() == previewed(
                        restored(open.doc.content(), kept),
                        finite_operations(operations@),
                    )
                    &&& now.doc.keeps_rest(open.doc)
                })
        } else {
            after == before
        },
        _ => after == before,
    }
}

/// What a commit does: the layer goes back to how the gesture found it, and then
/// the edit is carried out in one step.
pub open spec fn commit_outcome(
    builds: spec_fn(Doc, Vec<Operation>) -> bool,
    snapshot: Option<NodeSnapshot>,
    before: Option<OpenDocument>,
    after: Option<OpenDocument>,
    committed: bool,
) -> bool {
    match before {
        None => after is None && !committed,
        Some(open) => if open.editable {
            exists|seen: Doc, operations: Vec<Operation>| #[trigger]
                built_on(builds, open, snapshot, seen, operations) && (after matches Some(now) && {
                    &&& now.editable
                    &&& now.doc.content() == taken(
                        restored_if(open.doc.content(), snapshot),
                        finite_operations(operations@),
                    )
                    &&& crate::panel::recorded(
                        open,
                        now,
                        None,
                        taken_list(
                            restored_if(open.doc.content(), snapshot),
                            finite_operations(operations@),
                        ),
                    )
                    &&& now.doc.keeps_rest(open.doc)
                    &&& committed == counts(
                        restored_if(open.doc.content(), snapshot),
                        finite_operations(operations@),
                    )
                })
        } else {
            open_restored(before, after, snapshot) && !committed
        },
    }
}

/// A preview that follows a builder follows whatever the builder does.
pub proof fn lemma_preview_follows(
    builds: spec_fn(Doc, Vec<Operation>) -> bool,
    does: spec_fn(Doc, Vec<Operation>) -> bool,
    snapshot: Option<NodeSnapshot>,
    before: Option<OpenDocument>,
    after: Option<OpenDocument>,
)
    requires
        preview_outcome(builds, snapshot, before, after),
        forall|seen: Doc, operations: Vec<Operation>|
            builds(seen, operations) ==> #[trigger] does(seen, operations),
    ensures
        preview_outcome(does, snapshot, before, after),
{
    if let (Some(open), Some(kept)) = (before, snapshot) {
        if open.editable {
            let (seen, operations): (Doc, Vec<Operation>) = choose|
                seen: Doc,
                operations: Vec<Operation>,
            | #[trigger]
                built_on(builds, open, snapshot, seen, operations) && (after matches Some(now) && {
                    &&& now.editable
                    &&& now.history == open.history
                    &&& now.doc.content() == previewed(
                        restored(open.doc.content(), kept),
                        finite_operations(operations@),
                    )
                    &&& now.doc.keeps_rest(open.doc)
                });
            assert(does(seen, operations));
            assert(built_on(does, open, snapshot, seen, operations));
        }
    }
}

/// A commit that follows a builder follows whatever the builder does.
pub proof fn lemma_commit_follows(
    builds: spec_fn(Doc, Vec<Operation>) -> bool,
    does: spec_fn(Doc, Vec<Operation>) -> bool,
    snapshot: Option<NodeSnapshot>,
    before: Option<OpenDocument>,
    after: Option<OpenDocument>,
    committed: bool,
)
    requires
        commit_outcome(builds, snapshot, before, after, committed),
        forall|seen: Doc, operations: Vec<Operation>|
            builds(seen, operations) ==> #[trigger] does(seen, operations),
    ensures
        commit_outcome(does, snapshot, before, after, committed),
{
    if let Some(open) = before {
        if open.editable {
            let (seen, operations): (Doc, Vec<Operation>) = choose|
                seen: Doc,
                operations: Vec<Operation>,
            | #[trigger]
                built_on(builds, open, snapshot, seen, operations) && (after matches Some(now) && {
                    &&& now.editable
                    &&& now.doc.content() == taken(
                        restored_if(open.doc.content(), snapshot),
                        finite_operations(operations@),
                    )
                    &&& crate::panel::recorded(
                        open,
                        now,
                        None,
                        taken_list(
                            restored_if(open.doc.content(), snapshot),
                            finite_operations(operations@),
                        ),
                    )
                    &&& now.doc.keeps_rest(open.doc)
                    &&& committed == counts(
                        restored_if(open.doc.content(), snapshot),
                        finite_operations(operations@),
                    )
                });
            assert(does(seen, operations));
            assert(built_on(does, open, snapshot, seen, operations));
        }
    }
}

/// What one phase of a gesture does to the adapter and the open document. A
/// cancelled gesture gives up everything under way, or only itself. `ended` says,
/// where a gesture ended, whether its edit was carried out.
pub open spec fn phase_outcome(
    builds: spec_fn(Doc, Vec<Operation>) -> bool,
    before: DesignAdapter,
    after: DesignAdapter,
    open_before: Option<OpenDocument>,
    open_after: Option<OpenDocument>,
    id: NodeId,
    phase: EditPhase,
    cancel_all: bool,
    ended: Option<bool>,
) -> bool {
    let own = session_for(before.session, id);
    match phase {
        EditPhase::Begin => {
            &&& ended is None
            &&& open_restored(open_before, open_after, any_snapshot(before.session))
            &&& gave_up(before, (DesignAdapter { session: None, ..after }))
            &&& after.session == session_on(open_after, id)
        },
        EditPhase::Preview => {
            &&& ended is None
            &&& after == before
            &&& preview_outcome(builds, own, open_before, open_after)
        },
        EditPhase::Commit => {
            &&& ended is Some == own is Some
            &&& after.session is None
            &&& if own is Some {
                same_but_session(before, after)
            } else {
                gave_up(before, after)
            }
            &&& exists|committed: bool| #[trigger]
                commit_outcome(builds, own, open_before, open_after, committed) && (ended is Some
                    ==> ended == Some(committed))
        },
        EditPhase::Cancel => if cancel_all {
            &&& gave_up(before, after)
            &&& open_restored(open_before, open_after, any_snapshot(before.session))
            &&& ended == (if before.session is Some {
                Some(false)
            } else {
                None
            })
        } else {
            &&& same_but_session(before, after)
            &&& after.session is None
            &&& open_restored(open_before, open_after, own)
            &&& ended == (if own is Some {
                Some(false)
            } else {
                None
            })
        },
    }
}

/// A phase that follows a builder follows whatever the builder does.
pub proof fn lemma_phase_follows(
    builds: spec_fn(Doc, Vec<Operation>) -> bool,
    does: spec_fn(Doc, Vec<Operation>) -> bool,
    before: DesignAdapter,
    after: DesignAdapter,
    open_before: Option<OpenDocument>,
    open_after: Option<OpenDocument>,
    id: NodeId,
    phase: EditPhase,
    cancel_all: bool,
    ended: Option<bool>,
)
    requires
        phase_outcome(
            builds,
            before,
            after,
            open_before,
            open_after,
            id,
            phase,
            cancel_all,
            ended,
        ),
        forall|seen: Doc, operations: Vec<Operation>|
            builds(seen, operations) ==> #[trigger] does(seen, operations),
    ensures
        phase_outcome(
            does,
            before,
            after,
            open_before,
            open_after,
            id,
            phase,
            cancel_all,
            ended,
        ),
{
    let own = session_for(before.session, id);
    match phase {
        EditPhase::Preview => {
            lemma_preview_follows(builds, does, own, open_before, open_after);
        },
        EditPhase::Commit => {
            let committed = choose|committed: bool| #[trigger]
                commit_outcome(builds, own, open_before, open_after, committed) && (ended is Some
                    ==> ended == Some(committed));
            lemma_commit_follows(builds, does, own, open_before, open_after, committed);
        },
        _ => {},
    }
}

/// What a builder that may refuse gives on a document.
pub open spec fn offers_of<F: FnOnce(&Doc) -> Option<Vec<Operation>>>(build: F) -> spec_fn(
    Doc,
    Option<Vec<Operation>>,
) -> bool {
    |seen: Doc, offered: Option<Vec<Operation>>| build.ensures((&seen,), offered)
}

/// What is built where a builder may refuse: its operations, or none at all.
/// `wired` says, where it is given, whether it does not refuse.
pub open spec fn offer_builds(
    offers: spec_fn(Doc, Option<Vec<Operation>>) -> bool,
    wired: Option<bool>,
    seen: Doc,
    operations: Vec<Operation>,
) -> bool {
    exists|offered: Option<Vec<Operation>>| #[trigger]
        offers(seen, offered) && (wired matches Some(wired) ==> wired == offered is Some) && (
        match offered {
            Some(built) => operations == built,
            None => operations@.len() == 0,
        })
}

pub open spec fn offer_builder(
    offers: spec_fn(Doc, Option<Vec<Operation>>) -> bool,
    wired: Option<bool>,
) -> spec_fn(Doc, Vec<Operation>) -> bool {
    |seen: Doc, operations: Vec<Operation>| offer_builds(offers, wired, seen, operations)
}

/// What follows a builder that may refuse follows whatever the builder does.
pub proof fn lemma_offer_follows(
    offers: spec_fn(Doc, Option<Vec<Operation>>) -> bool,
    does: spec_fn(Doc, Option<Vec<Operation>>) -> bool,
    wired: Option<bool>,
)
    requires
        forall|seen: Doc, offered: Option<Vec<Operation>>|
            offers(seen, offered) ==> #[trigger] does(seen, offered),
    ensures
        forall|seen: Doc, operations: Vec<Operation>|
            offer_builder(offers, wired)(seen, operations) ==> #[trigger] offer_builder(
                does,
                wired,
            )(seen, operations),
{
    assert forall|seen: Doc, operations: Vec<Operation>|
        offer_builder(offers, wired)(seen, operations) implies #[trigger] offer_builder(
        does,
        wired,
    )(seen, operations) by {
        let offered = choose|offered: Option<Vec<Operation>>| #[trigger]
            offers(seen, offered) && (wired matches Some(wired) ==> wired == offered is Some) && (
            match offered {
                Some(built) => operations == built,
                None => operations@.len() == 0,
            });
        assert(does(seen, offered));
    }
}

fn restore_open(open: &mut Option<OpenDocument>, snapshot: &NodeSnapshot)
    requires
        in_order(*old(open)),
    ensures
        in_order(*final(open)),
        open_restored(*old(open), *final(open), Some(*snapshot)),
{
    match open.take() {
        None => {},
        Some(document) => {
            let mut document = document;
            restore_snapshot(&mut document.doc, snapshot);
            *open = Some(document);
        },
    }
}

/// A document is open and may be edited.
pub open spec fn may_be_edited(open: Option<OpenDocument>) -> bool {
    open matches Some(open) && open.editable
}

/// Whether an edit was not refused, which only its end tells.
pub open spec fn wired_at(phase: EditPhase, refused: bool) -> Option<bool> {
    if phase == EditPhase::Commit {
        Some(!refused)
    } else {
        None
    }
}

/// Builds an edit that may be refused on the document with a snapshot put back,
/// and carries it out: whether it was carried out, and whether it was not refused.
fn carry_offer<F: FnOnce(&Doc) -> Option<Vec<Operation>>>(
    open: &mut Option<OpenDocument>,
    Ghost(before): Ghost<Option<OpenDocument>>,
    Ghost(snapshot): Ghost<Option<NodeSnapshot>>,
    build: F,
) -> (r: (bool, bool))
    requires
        in_order(*old(open)),
        open_restored(before, *old(open), snapshot),
        forall|doc: &Doc| doc.well_formed() ==> #[trigger] build.requires((doc,)),
    ensures
        in_order(*final(open)),
        !r.1 ==> may_be_edited(before) && !r.0,
        commit_outcome(
            offer_builder(offers_of(build), Some(r.1)),
            snapshot,
            before,
            *final(open),
            r.0,
        ),
{
    let mut wired = true;
    let operations = match &*open {
        Some(document) => if document.editable {
            let offered = build(&document.doc);
            assert(offers_of(build)(document.doc, offered));
            wired = offered.is_some();
            let operations = match offered {
                Some(operations) => operations,
                None => Vec::new(),
            };
            assert(built_on(
                offer_builder(offers_of(build), Some(wired)),
                before->0,
                snapshot,
                document.doc,
                operations,
            ));
            operations
        } else {
            Vec::new()
        },
        None => Vec::new(),
    };
    let carried = design_apply_ops(open, &operations);
    proof {
        if let Some(document) = before {
            let kept = finite_operations(operations@);
            if document.editable && kept.len() == 0 {
                assert(taken(restored_if(document.doc.content(), snapshot), kept)
                    == restored_if(document.doc.content(), snapshot));
            }
        }
    }
    (carried, wired)
}

impl DesignAdapter {
    /// The state that an inspector starts with.
    pub fn new() -> (adapter: DesignAdapter)
        ensures
            adapter.last_echo is None,
            adapter.session is None,
            adapter.crop is None,
            adapter.fonts_dirty,
            adapter.exports@.len() == 1,
            new_export(0, adapter.exports@[0]),
            adapter.export_snapshot is None,
            adapter.next_export_id == 1,
    {
        let mut exports: Vec<ExportConfiguration> = Vec::new();
        exports.push(make_export(0));
        DesignAdapter {
            last_echo: None,
            session: None,
            crop: None,
            fonts_dirty: true,
            exports,
            export_snapshot: None,
            next_export_id: 1,
        }
    }

    /// Gives all edits under way up: the layer goes back to how its gesture found
    /// it, and so do the export settings. Tells whether a preview has ended.
    pub fn finish_edits(&mut self, open: &mut Option<OpenDocument>) -> (ended: bool)
        requires
            in_order(*old(open)),
        ensures
            in_order(*final(open)),
            gave_up(*old(self), *final(self)),
            ended == old(self).session is Some,
            open_restored(*old(open), *final(open), any_snapshot(old(self).session)),
    {
        self.crop = None;
        self.last_echo = None;
        match self.export_snapshot.take() {
            Some(exports) => {
                self.exports = exports;
            },
            None => {},
        }
        match self.session.take() {
            Some(session) => {
                restore_open(open, &session.snapshot);
                true
            },
            None => false,
        }
    }

    /// Begins a gesture on a layer: what is under way is given up, and the layer
    /// is remembered as it is.
    pub fn begin_edit(&mut self, open: &mut Option<OpenDocument>, id: NodeId)
        requires
            in_order(*old(open)),
        ensures
            in_order(*final(open)),
            open_restored(*old(open), *final(open), any_snapshot(old(self).session)),
            gave_up(*old(self), (DesignAdapter { session: None, ..*final(self) })),
            final(self).session == session_on(*final(open), id),
    {
        let _ended = self.finish_edits(open);
        if let Some(document) = &*open {
            if document.editable {
                if let Some(node) = document.doc.get(id) {
                    self.session = Some(EditSession { node: id, snapshot: take_snapshot(node) });
                }
            }
        }
    }

    /// Shows an edit while its gesture goes on.
    pub fn preview_edit<F: FnOnce(&Doc) -> Vec<Operation>>(
        &self,
        open: &mut Option<OpenDocument>,
        id: NodeId,
        build: F,
    )
        requires
            in_order(*old(open)),
            forall|doc: &Doc| doc.well_formed() ==> #[trigger] build.requires((doc,)),
        ensures
            in_order(*final(open)),
            preview_outcome(
                builds_of(build),
                session_for(self.session, id),
                *old(open),
                *final(open),
            ),
    {
        let ghost before = *open;
        let snapshot = match &self.session {
            Some(session) => if session.node == id {
                session.snapshot.copy()
            } else {
                return ;
            },
            None => {
                return ;
            },
        };
        match open.take() {
            None => {},
            Some(document) => {
                let mut document = document;
                if document.editable {
                    restore_snapshot(&mut document.doc, &snapshot);
                    let operations = build(&document.doc);
                    assert(built_on(
                        builds_of(build),
                        before->0,
                        Some(snapshot),
                        document.doc,
                        operations,
                    ));
                    let kept = finite_transform_operations(&operations);
                    preview_operations(&mut document.doc, &kept);
                }
                *open = Some(document);
            },
        }
    }

    /// Commits an edit, at the end of its gesture or without one. Gives back,
    /// where a gesture on the layer ended, whether the edit was carried out.
    pub fn commit_edit<F: FnOnce(&Doc) -> Vec<Operation>>(
        &mut self,
        open: &mut Option<OpenDocument>,
        id: NodeId,
        build: F,
    ) -> (ended: Option<bool>)
        requires
            in_order(*old(open)),
            forall|doc: &Doc| doc.well_formed() ==> #[trigger] build.requires((doc,)),
        ensures
            in_order(*final(open)),
            final(self).session is None,
            ended is Some == session_for(old(self).session, id) is Some,
            if session_for(old(self).session, id) is Some {
                same_but_session(*old(self), *final(self))
            } else {
                gave_up(*old(self), *final(self))
            },
            exists|committed: bool| #[trigger]
                commit_outcome(
                    builds_of(build),
                    session_for(old(self).session, id),
                    *old(open),
                    *final(open),
                    committed,
                ) && (ended is Some ==> ended == Some(committed)),
    {
        let ghost before = *open;
        let ghost started = self.session;
        let session = match self.session.take() {
            Some(session) => if session.node == id {
                Some(session)
            } else {
                None
            },
            None => None,
        };
        match &session {
            Some(session) => {
                restore_open(open, &session.snapshot);
            },
            None => {
                let _ended = self.finish_edits(open);
            },
        }
        let ghost snapshot = session_for(started, id);
        assert(open_restored(before, *open, snapshot));
        let operations = match &*open {
            Some(document) => if document.editable {
                let operations = build(&document.doc);
                assert(built_on(builds_of(build), before->0, snapshot, document.doc, operations));
                operations
            } else {
                Vec::new()
            },
            None => Vec::new(),
        };
        let committed = design_apply_ops(open, &operations);
        proof {
            if let Some(document) = before {
                let kept = finite_operations(operations@);
                if document.editable && kept.len() == 0 {
                    assert(taken(restored_if(document.doc.content(), snapshot), kept)
                        == restored_if(document.doc.content(), snapshot));
                }
            }
            assert(commit_outcome(builds_of(build), snapshot, before, *open, committed));
        }
        match session {
            Some(_) => Some(committed),
            None => None,
        }
    }

    /// Cancels a gesture on a layer: the layer goes back to how the gesture found
    /// it. Tells whether there was one.
    pub fn cancel_edit(&mut self, open: &mut Option<OpenDocument>, id: NodeId) -> (ended: bool)
        requires
            in_order(*old(open)),
        ensures
            in_order(*final(open)),
            same_but_session(*old(self), *final(self)),
            final(self).session is None,
            ended == session_for(old(self).session, id) is Some,
            open_restored(*old(open), *final(open), session_for(old(self).session, id)),
    {
        match self.session.take() {
            Some(session) => if session.node == id {
                restore_open(open, &session.snapshot);
                true
            } else {
                false
            },
            None => false,
        }
    }

    /// One phase of a gesture on a layer.
    pub fn phased_edit<F: FnOnce(&Doc) -> Vec<Operation>>(
        &mut self,
        open: &mut Option<OpenDocument>,
        id: NodeId,
        phase: EditPhase,
        cancel_all: bool,
        build: F,
    ) -> (ended: Option<bool>)
        requires
            in_order(*old(open)),
            forall|doc: &Doc| doc.well_formed() ==> #[trigger] build.requires((doc,)),
        ensures
            in_order(*final(open)),
            phase_outcome(
                builds_of(build),
                *old(self),
                *final(self),
                *old(open),
                *final(open),
                id,
                phase,
                cancel_all,
                ended,
            ),
    {
        match phase {
            EditPhase::Begin => {
                self.begin_edit(open, id);
                None
            },
            EditPhase::Preview => {
                self.preview_edit(open, id, build);
                None
            },
            EditPhase::Commit => self.commit_edit(open, id, build),
            EditPhase::Cancel => {
                let ended = if cancel_all {
                    self.finish_edits(open)
                } else {
                    self.cancel_edit(open, id)
                };
                if ended {
                    Some(false)
                } else {
                    None
                }
            },
        }
    }

    /// Commits an edit that may be refused, at the end of its gesture or without
    /// one. Gives back, where a gesture on the layer ended, whether the edit was
    /// carried out, and then whether it was refused.
    pub fn commit_offer<F: FnOnce(&Doc) -> Option<Vec<Operation>>>(
        &mut self,
        open: &mut Option<OpenDocument>,
        id: NodeId,
        build: F,
    ) -> (r: (Option<bool>, bool))
        requires
            in_order(*old(open)),
            forall|doc: &Doc| doc.well_formed() ==> #[trigger] build.requires((doc,)),
        ensures
            in_order(*final(open)),
            final(self).session is None,
            r.0 is Some == session_for(old(self).session, id) is Some,
            r.1 ==> may_be_edited(*old(open)),
            if session_for(old(self).session, id) is Some {
                same_but_session(*old(self), *final(self))
            } else {
                gave_up(*old(self), *final(self))
            },
            exists|committed: bool| #[trigger]
                commit_outcome(
                    offer_builder(offers_of(build), wired_at(EditPhase::Commit, r.1)),
                    session_for(old(self).session, id),
                    *old(open),
                    *final(open),
                    committed,
                ) && (r.0 is Some ==> r.0 == Some(committed)),
    {
        let ghost before = *open;
        let ghost started = self.session;
        let session = match self.session.take() {
            Some(session) => if session.node == id {
                Some(session)
            } else {
                None
            },
            None => None,
        };
        match &session {
            Some(session) => {
                restore_open(open, &session.snapshot);
            },
            None => {
                let _ended = self.finish_edits(open);
            },
        }
        let ghost snapshot = session_for(started, id);
        let (committed, wired) = carry_offer(open, Ghost(before), Ghost(snapshot), build);
        assert(wired_at(EditPhase::Commit, !wired) == Some(wired));
        match session {
            Some(_) => (Some(committed), !wired),
            None => (None, !wired),
        }
    }

    /// One phase of a gesture on a layer whose edit may be refused. Says at the
    /// end whether a committed edit was.
    pub fn phased_offer<F: FnOnce(&Doc) -> Option<Vec<Operation>>>(
        &mut self,
        open: &mut Option<OpenDocument>,
        id: NodeId,
        phase: EditPhase,
        build: F,
    ) -> (r: (Option<bool>, bool))
        requires
            in_order(*old(open)),
            forall|doc: &Doc| doc.well_formed() ==> #[trigger] build.requires((doc,)),
        ensures
            in_order(*final(open)),
            r.1 ==> phase == EditPhase::Commit && may_be_edited(*old(open)),
            phase_outcome(
                offer_builder(offers_of(build), wired_at(phase, r.1)),
                *old(self),
                *final(self),
                *old(open),
                *final(open),
                id,
                phase,
                false,
                r.0,
            ),
    {
        match phase {
            EditPhase::Begin => {
                self.begin_edit(open, id);
                (None, false)
            },
            EditPhase::Preview => {
                let ghost before = *open;
                let list = |doc: &Doc| -> (operations: Vec<Operation>)
                    requires
                        doc.well_formed(),
                    ensures
                        offer_builds(offers_of(build), None, *doc, operations),
                    {
                        let offered = build(doc);
                        assert(offers_of(build)(*doc, offered));
                        match offered {
                            Some(operations) => operations,
                            None => Vec::new(),
                        }
                    };
                self.preview_edit(open, id, list);
                proof {
                    lemma_preview_follows(
                        builds_of(list),
                        offer_builder(offers_of(build), None),
                        session_for(self.session, id),
                        before,
                        *open,
                    );
                }
                (None, false)
            },
            EditPhase::Commit => self.commit_offer(open, id, build),
            EditPhase::Cancel => {
                let ended = self.cancel_edit(open, id);
                if ended {
                    (Some(false), false)
                } else {
                    (None, false)
                }
            },
        }
    }

    /// Gives up what is under way and carries out at once an edit that may be
    /// refused; whether it was carried out, and nothing where it was refused.
    pub fn apply_offer<F: FnOnce(&Doc) -> Option<Vec<Operation>>>(
        &mut self,
        open: &mut Option<OpenDocument>,
        build: F,
    ) -> (applied: Option<bool>)
        requires
            in_order(*old(open)),
            forall|doc: &Doc| doc.well_formed() ==> #[trigger] build.requires((doc,)),
        ensures
            in_order(*final(open)),
            gave_up(*old(self), *final(self)),
            applied is None ==> may_be_edited(*old(open)),
            commit_outcome(
                offer_builder(offers_of(build), Some(applied is Some)),
                any_snapshot(old(self).session),
                *old(open),
                *final(open),
                applied == Some(true),
            ),
    {
        let ghost before = *open;
        let ghost snapshot = any_snapshot(self.session);
        let _ended = self.finish_edits(open);
        let (applied, wired) = carry_offer(open, Ghost(before), Ghost(snapshot), build);
        if wired {
            Some(applied)
        } else {
            None
        }
    }

    /// Gives up what is under way and carries an edit out at once; whether it
    /// was.
    pub fn apply_now<F: FnOnce(&Doc) -> Vec<Operation>>(
        &mut self,
        open: &mut Option<OpenDocument>,
        build: F,
    ) -> (applied: bool)
        requires
            in_order(*old(open)),
            forall|doc: &Doc| doc.well_formed() ==> #[trigger] build.requires((doc,)),
        ensures
            in_order(*final(open)),
            gave_up(*old(self), *final(self)),
            commit_outcome(
                builds_of(build),
                any_snapshot(old(self).session),
                *old(open),
                *final(open),
                applied,
            ),
    {
        let ghost before = *open;
        let ghost snapshot = any_snapshot(self.session);
        let _ended = self.finish_edits(open);
        assert(open_restored(before, *open, snapshot));
        let operations = match &*open {
            Some(document) => if document.editable {
                let operations = build(&document.doc);
                assert(built_on(builds_of(build), before->0, snapshot, document.doc, operations));
                operations
            } else {
                Vec::new()
            },
            None => Vec::new(),
        };
        let applied = design_apply_ops(open, &operations);
        proof {
            if let Some(document) = before {
                let kept = finite_operations(operations@);
                if document.editable && kept.len() == 0 {
                    assert(taken(restored_if(document.doc.content(), snapshot), kept)
                        == restored_if(document.doc.content(), snapshot));
                }
            }
        }
        applied
    }

    /// Adds export settings.
    pub fn add_export(&mut self)
        ensures
            final(self).exports@.len() == old(self).exports@.len() + 1,
            final(self).exports@.drop_last() == old(self).exports@,
            new_export(old(self).next_export_id, final(self).exports@.last()),
            final(self).next_export_id == old(self).next_export_id.wrapping_add(1),
            final(self).last_echo is None,
            *final(self) == (DesignAdapter {
                exports: final(self).exports,
                next_export_id: final(self).next_export_id,
                last_echo: None,
                ..*old(self)
            }),
    {
        let made = make_export(self.next_export_id);
        self.next_export_id = self.next_export_id.wrapping_add(1);
        self.exports.push(made);
        self.last_echo = None;
        assert(self.exports@.drop_last() =~= old(self).exports@);
    }

    /// Removes the export settings of an id.
    pub fn remove_export(&mut self, id: &str)
        ensures
            final(self).exports@ == without_export(old(self).exports@, id@),
            *final(self) == (DesignAdapter {
                exports: final(self).exports,
                last_echo: None,
                ..*old(self)
            }),
    {
        let ghost start = self.exports@;
        let mut kept: Vec<ExportConfiguration> = Vec::new();
        let mut i: usize = 0;
        assert(start.take(0) =~= Seq::<ExportConfiguration>::empty());
        while i < self.exports.len()
            invariant
                i <= self.exports@.len(),
                self.exports@ == start,
                kept@ == without_export(start.take(i as int), id@),
            decreases self.exports@.len() - i,
        {
            proof {
                assert(start.take(i + 1).drop_last() =~= start.take(i as int));
                assert(start.take(i + 1).last() == start[i as int]);
            }
            if !same_text(self.exports[i].id.as_str(), id) {
                kept.push(self.exports[i].copy());
            }
            i = i + 1;
        }
        assert(start.take(start.len() as int) =~= start);
        self.exports = kept;
        self.last_echo = None;
    }

    /// One phase of a change to the export settings of an id, which the change
    /// turns into `settings`.
    pub fn change_export(&mut self, id: &str, settings: ExportSettings, phase: EditPhase)
        ensures
            export_phase(*old(self), *final(self), id@, settings, phase),
    {
        self.last_echo = None;
        match phase {
            EditPhase::Begin => {
                self.export_snapshot = Some(copy_exports(&self.exports));
            },
            EditPhase::Preview => {
                self.set_export(id, settings);
            },
            EditPhase::Commit => {
                self.set_export(id, settings);
                self.export_snapshot = None;
            },
            EditPhase::Cancel => {
                match self.export_snapshot.take() {
                    Some(exports) => {
                        self.exports = exports;
                    },
                    None => {},
                }
            },
        }
    }

    fn set_export(&mut self, id: &str, settings: ExportSettings)
        ensures
            final(self).exports@ == export_changed(old(self).exports@, id@, settings),
            *final(self) == (DesignAdapter { exports: final(self).exports, ..*old(self) }),
    {
        let ghost start = self.exports@;
        let mut at: usize = 0;
        let mut found = false;
        while at < self.exports.len() && !found
            invariant
                at <= self.exports@.len(),
                *self == *old(self),
                self.exports@ == start,
                forall|k: int| 0 <= k < at ==> (#[trigger] start[k]).id@ != id@,
                found ==> at < start.len() && start[at as int].id@ == id@,
            decreases self.exports@.len() - at + (if found {
                0int
            } else {
                1int
            }),
        {
            if same_text(self.exports[at].id.as_str(), id) {
                found = true;
            } else {
                at = at + 1;
            }
        }
        proof {
            lemma_export_changed_at(start, id@, settings, at as int);
        }
        if found {
            let changed = ExportConfiguration { id: self.exports[at].id.clone(), settings };
            self.exports.set(at, changed);
        }
    }

    /// The settings to export with.
    pub fn export_requests(&self) -> (requests: Vec<ExportSettings>)
        ensures
            requests@ == self.exports@.map_values(
                |configuration: ExportConfiguration| configuration.settings,
            ),
    {
        let ghost wanted = self.exports@.map_values(
            |configuration: ExportConfiguration| configuration.settings,
        );
        let mut requests: Vec<ExportSettings> = Vec::new();
        let mut i: usize = 0;
        while i < self.exports.len()
            invariant
                i <= self.exports@.len(),
                wanted.len() == self.exports@.len(),
                forall|k: int|
                    0 <= k < wanted.len() ==> #[trigger] wanted[k] == self.exports@[k].settings,
                requests@ == wanted.take(i as int),
            decreases self.exports@.len() - i,
        {
            requests.push(self.exports[i].settings.copy());
            assert(requests@ =~= wanted.take(i + 1));
            i = i + 1;
        }
        assert(wanted.take(wanted.len() as int) =~= wanted);
        requests
    }
}

/// What is said after an export: where its files went.
pub open spec fn exported_text(files: Seq<String>, folder: Option<String>) -> Seq<char> {
    if files.len() == 0 {
        "Nothing was exported."@
    } else if files.len() == 1 {
        "Exported "@ + files[0]@
    } else {
        "Exported "@ + crate::text::decimal(files.len()) + " files to "@ + (match folder {
            Some(folder) => folder@,
            None => "export folder"@,
        })
    }
}

/// The words after an export. `files` are the files in words, `folder` the one
/// that the first lies in.
pub fn export_message(files: &Vec<String>, folder: &Option<String>) -> (text: String)
    ensures
        text@ == exported_text(files@, *folder),
{
    if files.len() == 0 {
        return "Nothing was exported.".to_owned();
    }
    let mut text = "Exported ".to_owned();
    if files.len() == 1 {
        text.append(files[0].as_str());
        return text;
    }
    let count = crate::text::decimal_text(files.len());
    text.append(count.as_str());
    text.append(" files to ");
    match folder {
        Some(folder) => {
            text.append(folder.as_str());
        },
        None => {
            text.append("export folder");
        },
    }
    text
}

/// What one phase of a change to export settings does.
pub open spec fn export_phase(
    before: DesignAdapter,
    after: DesignAdapter,
    id: Seq<char>,
    settings: ExportSettings,
    phase: EditPhase,
) -> bool {
    &&& after == (DesignAdapter {
        exports: after.exports,
        export_snapshot: after.export_snapshot,
        last_echo: None,
        ..before
    })
    &&& match phase {
        EditPhase::Begin => after.exports == before.exports && (
        after.export_snapshot matches Some(snapshot) && snapshot@ == before.exports@),
        EditPhase::Preview => after.exports@ == export_changed(before.exports@, id, settings)
            && after.export_snapshot == before.export_snapshot,
        EditPhase::Commit => after.exports@ == export_changed(before.exports@, id, settings)
            && after.export_snapshot is None,
        EditPhase::Cancel => after.exports@ == (match before.export_snapshot {
            Some(snapshot) => snapshot@,
            None => before.exports@,
        }) && after.export_snapshot is None,
    }
}

/// Beginning a change to export settings, previewing it and cancelling it leaves
/// the settings as they were.
pub proof fn lemma_export_cancel_restores(
    start: DesignAdapter,
    begun: DesignAdapter,
    shown: DesignAdapter,
    end: DesignAdapter,
    id: Seq<char>,
    settings: ExportSettings,
)
    requires
        export_phase(start, begun, id, settings, EditPhase::Begin),
        export_phase(begun, shown, id, settings, EditPhase::Preview),
        export_phase(shown, end, id, settings, EditPhase::Cancel),
    ensures
        end.exports@ == start.exports@,
        end.export_snapshot is None,
{
}

// ---------------------------------------------------------------------------
// Showing the document
// ---------------------------------------------------------------------------

/// Puts a preview behind those of smaller assets.
pub open spec fn preview_inserted(list: Seq<PreviewSignature>, one: PreviewSignature) -> Seq<
    PreviewSignature,
>
    decreases list.len(),
{
    if list.len() == 0 || list.last().asset.raw <= one.asset.raw {
        list.push(one)
    } else {
        preview_inserted(list.drop_last(), one).push(list.last())
    }
}

/// The previews in the order of their assets.
pub open spec fn previews_sorted(list: Seq<PreviewSignature>) -> Seq<PreviewSignature>
    decreases list.len(),
{
    if list.len() == 0 {
        Seq::empty()
    } else {
        preview_inserted(previews_sorted(list.drop_last()), list.last())
    }
}

proof fn lemma_preview_inserted_at(list: Seq<PreviewSignature>, one: PreviewSignature, at: int)
    requires
        0 <= at <= list.len(),
        at > 0 ==> list[at - 1].asset.raw <= one.asset.raw,
        forall|k: int| at <= k < list.len() ==> (#[trigger] list[k]).asset.raw > one.asset.raw,
    ensures
        preview_inserted(list, one) == list.insert(at, one),
    decreases list.len(),
{
    if at == list.len() {
        assert(list.insert(at, one) =~= list.push(one));
    } else {
        let front = list.drop_last();
        assert(list[list.len() - 1].asset.raw > one.asset.raw);
        assert forall|k: int| at <= k < front.len() implies (#[trigger] front[k]).asset.raw
            > one.asset.raw by {
            assert(front[k] == list[k]);
        }
        lemma_preview_inserted_at(front, one, at);
        assert(front.insert(at, one).push(list.last()) =~= list.insert(at, one));
    }
}

fn sort_previews(list: &Vec<PreviewSignature>) -> (sorted: Vec<PreviewSignature>)
    ensures
        sorted@ == previews_sorted(list@),
{
    let mut sorted: Vec<PreviewSignature> = Vec::new();
    let mut i: usize = 0;
    assert(list@.take(0) =~= Seq::<PreviewSignature>::empty());
    while i < list.len()
        invariant
            i <= list@.len(),
            sorted@ == previews_sorted(list@.take(i as int)),
        decreases list@.len() - i,
    {
        let one = list[i];
        let mut at: usize = sorted.len();
        while at > 0 && sorted[at - 1].asset.raw > one.asset.raw
            invariant
                at <= sorted@.len(),
                forall|k: int|
                    at <= k < sorted@.len() ==> (#[trigger] sorted@[k]).asset.raw > one.asset.raw,
            decreases at,
        {
            at = at - 1;
        }
        proof {
            lemma_preview_inserted_at(sorted@, one, at as int);
            assert(list@.take(i + 1).drop_last() =~= list@.take(i as int));
            assert(list@.take(i + 1).last() == one);
        }
        sorted.insert(at, one);
        i = i + 1;
    }
    assert(list@.take(list@.len() as int) =~= list@);
    sorted
}

/// What the last showing was made from: the selection that is still there, the
/// document's generation, whether it may be edited, the page, and the previews.
pub open spec fn keyed_as(
    key: EchoKey,
    doc: Doc,
    editable: bool,
    generation: u64,
    page_index: Option<usize>,
    previews: Seq<PreviewSignature>,
) -> bool {
    &&& key.selection@ == crate::panel::still_there(doc, doc.selection@)
    &&& key.generation == generation
    &&& key.editable == editable
    &&& key.page_index == page_index
    &&& key.previews@ == previews_sorted(previews)
}

fn same_key(a: &EchoKey, b: &EchoKey) -> (same: bool)
    ensures
        same == (a.selection@ == b.selection@ && a.generation == b.generation && a.editable
            == b.editable && a.page_index == b.page_index && a.previews@ == b.previews@),
{
    if a.generation != b.generation || a.editable != b.editable || a.selection.len()
        != b.selection.len() || a.previews.len() != b.previews.len() {
        return false;
    }
    let pages = match (a.page_index, b.page_index) {
        (Some(left), Some(right)) => left == right,
        (None, None) => true,
        _ => false,
    };
    if !pages {
        return false;
    }
    let mut i: usize = 0;
    while i < a.selection.len()
        invariant
            i <= a.selection@.len(),
            a.selection@.len() == b.selection@.len(),
            forall|k: int| 0 <= k < i ==> a.selection@[k] == b.selection@[k],
        decreases a.selection@.len() - i,
    {
        if a.selection[i] != b.selection[i] {
            return false;
        }
        i = i + 1;
    }
    assert(a.selection@ =~= b.selection@);
    let mut j: usize = 0;
    while j < a.previews.len()
        invariant
            j <= a.previews@.len(),
            a.previews@.len() == b.previews@.len(),
            forall|k: int| 0 <= k < j ==> a.previews@[k] == b.previews@[k],
        decreases a.previews@.len() - j,
    {
        if a.previews[j] != b.previews[j] {
            return false;
        }
        j = j + 1;
    }
    assert(a.previews@ =~= b.previews@);
    true
}

/// What the host says for showing the document.
#[derive(Debug, PartialEq)]
pub struct EchoFacts {
    pub snapshot: SnapshotFacts,
    /// The page as the panel shows it now.
    pub previous_page: Option<PageView>,
    /// How the previews of the selected videos stand.
    pub previews: Vec<VideoPreview>,
    /// Videos play on this system.
    pub plays_video: bool,
}

/// What is to be shown anew.
#[derive(Debug, PartialEq)]
pub struct Echo {
    pub selection: Vec<NodeId>,
    /// One text is selected.
    pub text_selection: bool,
    /// Fills can be added and removed.
    pub fill_actions: bool,
    pub view: DesignViewData,
    pub export_target: DesignTarget,
    pub exports: Vec<ExportConfiguration>,
    pub fill_media: Vec<MediaView>,
    pub stroke_media: Vec<MediaView>,
    pub pattern_sources: Vec<PatternCandidate>,
    pub paint_types: Vec<PaintType>,
    /// The font catalog has changed since it was last shown.
    pub send_fonts: bool,
}

/// One text is selected.
pub open spec fn one_text(doc: Doc, selection: Seq<NodeId>) -> bool {
    selection.len() == 1 && crate::design_paints::is_text(doc, selection[0])
}

/// What is exported: the selected layers in order, or the page while none is
/// selected.
pub open spec fn exports_target(
    selection: Seq<NodeId>,
    page_index: Option<usize>,
    facts: SnapshotFacts,
    target: DesignTarget,
) -> bool {
    if selection.len() == 0 {
        target matches DesignTarget::Page(id) && id@ == crate::design_targets::page_name(
            facts.page_root,
            page_index,
        )
    } else {
        target matches DesignTarget::Nodes(ids) && ids@ == crate::design_targets::known(selection)
    }
}

fn target_for_export(
    selection: &Vec<NodeId>,
    page_index: Option<usize>,
    facts: &SnapshotFacts,
) -> (target: DesignTarget)
    ensures
        exports_target(selection@, page_index, *facts, target),
{
    if selection.len() == 0 {
        return DesignTarget::Page(current_page_id(&facts.page_root, page_index));
    }
    let mut ids: Vec<Option<NodeId>> = Vec::new();
    let mut i: usize = 0;
    while i < selection.len()
        invariant
            i <= selection@.len(),
            ids@ == crate::design_targets::known(selection@).take(i as int),
        decreases selection@.len() - i,
    {
        ids.push(Some(selection[i]));
        assert(ids@ =~= crate::design_targets::known(selection@).take(i + 1));
        i = i + 1;
    }
    assert(ids@ =~= crate::design_targets::known(selection@));
    DesignTarget::Nodes(ids)
}

/// The media among the paints of the one layer that is inspected.
pub open spec fn media_shown(
    inspection: Inspection,
    crop: Option<CropSession>,
    previews: Seq<VideoPreview>,
    fills: Seq<MediaView>,
    strokes: Seq<MediaView>,
) -> bool {
    match inspection {
        Inspection::Single { node, .. } => {
            &&& crate::design_paint_view::media_listed(
                fills,
                node.id,
                node.fills@,
                false,
                crop,
                previews,
            )
            &&& match node.stroke {
                Some(stroke) => crate::design_paint_view::media_listed(
                    strokes,
                    node.id,
                    stroke.paints@,
                    true,
                    crop,
                    previews,
                ),
                None => strokes.len() == 0,
            }
        },
        _ => fills.len() == 0 && strokes.len() == 0,
    }
}

fn list_media(inspection: &Inspection, crop: Option<CropSession>, previews: &Vec<VideoPreview>) -> (r:
    (Vec<MediaView>, Vec<MediaView>))
    ensures
        media_shown(*inspection, crop, previews@, r.0@, r.1@),
{
    match inspection {
        Inspection::Single { node, .. } => media_paint_view_data(
            node.id,
            &node.fills,
            &node.stroke,
            crop,
            previews,
        ),
        _ => (Vec::new(), Vec::new()),
    }
}

/// What showing the document anew brings: the snapshot of what is selected, what
/// is exported, the media among the paints, what a pattern can be made of, and the
/// kinds of paints.
pub open spec fn echo_of(
    doc: Doc,
    editable: bool,
    page_index: Option<usize>,
    adapter: DesignAdapter,
    facts: EchoFacts,
    echo: Echo,
) -> bool {
    let selection = crate::panel::still_there(doc, doc.selection@);
    &&& echo.selection@ == selection
    &&& echo.text_selection == one_text(doc, selection)
    &&& echo.fill_actions == !one_text(doc, selection)
    &&& crate::design_snapshot::view_shown(
        doc,
        selection,
        page_index,
        editable,
        facts.previous_page,
        facts.snapshot,
        echo.view,
    )
    &&& exports_target(selection, page_index, facts.snapshot, echo.export_target)
    &&& echo.exports@ == adapter.exports@
    &&& media_shown(
        echo.view.inspection,
        adapter.crop,
        facts.previews@,
        echo.fill_media@,
        echo.stroke_media@,
    )
    &&& echo.paint_types@ == crate::switches::paint_types(
        one_text(doc, selection),
        facts.plays_video,
    )
    &&& echo.send_fonts == adapter.fonts_dirty
    &&& crate::design_paints::shown_candidates(echo.pattern_sources@) == (if selection.len() == 1 {
        crate::design_paints::candidates_among(
            doc,
            selection[0],
            crate::scene::descendants(
                doc.nodes@,
                crate::design_paints::top_above(doc.nodes@, selection[0]),
            ),
        )
    } else {
        Seq::empty()
    })
}

/// The last showing was made from the same.
pub open spec fn still_shown(
    last: Option<EchoKey>,
    doc: Doc,
    editable: bool,
    generation: u64,
    page_index: Option<usize>,
    previews: Seq<PreviewSignature>,
) -> bool {
    last matches Some(key) && keyed_as(key, doc, editable, generation, page_index, previews)
}

impl DesignAdapter {
    /// Decides whether the document has to be shown anew, and what is then shown.
    pub fn refresh(
        &mut self,
        doc: &Doc,
        editable: bool,
        generation: u64,
        page_index: Option<usize>,
        previews: &Vec<PreviewSignature>,
        facts: &EchoFacts,
    ) -> (echo: Option<Echo>)
        ensures
            if still_shown(
                old(self).last_echo,
                *doc,
                editable,
                generation,
                page_index,
                previews@,
            ) {
                echo is None && *final(self) == *old(self)
            } else {
                &&& echo matches Some(echo)
                &&& echo_of(*doc, editable, page_index, *old(self), *facts, echo)
                &&& final(self).last_echo matches Some(key) && keyed_as(
                    key,
                    *doc,
                    editable,
                    generation,
                    page_index,
                    previews@,
                )
                &&& *final(self) == (DesignAdapter {
                    last_echo: final(self).last_echo,
                    fonts_dirty: false,
                    ..*old(self)
                })
            },
    {
        let selection = crate::panel::keep_there(doc, &doc.selection);
        let key = EchoKey {
            selection,
            generation,
            editable,
            page_index,
            previews: sort_previews(previews),
        };
        let shown = match &self.last_echo {
            Some(last) => same_key(last, &key),
            None => false,
        };
        if shown {
            return None;
        }
        let text_selection = key.selection.len() == 1 && crate::design_paints::is_text_layer(
            doc,
            key.selection[0],
        );
        let pattern_sources = if key.selection.len() == 1 {
            pattern_source_candidates(doc, key.selection[0])
        } else {
            Vec::new()
        };
        proof {
            if key.selection@.len() != 1 {
                assert(crate::design_paints::shown_candidates(pattern_sources@) =~= Seq::empty());
            }
        }
        let previous_page = match &facts.previous_page {
            Some(page) => Some(page.copy()),
            None => None,
        };
        let view = build_design_view_data(
            doc,
            &key.selection,
            page_index,
            editable,
            previous_page,
            &facts.snapshot,
        );
        let (fill_media, stroke_media) = list_media(&view.inspection, self.crop, &facts.previews);
        let send_fonts = self.fonts_dirty;
        self.fonts_dirty = false;
        let echo = Echo {
            selection: crate::panel::keep_there(doc, &doc.selection),
            text_selection,
            fill_actions: !text_selection,
            view,
            export_target: target_for_export(&key.selection, page_index, &facts.snapshot),
            exports: copy_exports(&self.exports),
            fill_media,
            stroke_media,
            pattern_sources,
            paint_types: supported_paint_types(text_selection, facts.plays_video),
            send_fonts,
        };
        self.last_echo = Some(key);
        Some(echo)
    }
}

// ---------------------------------------------------------------------------
// Laws
// ---------------------------------------------------------------------------

/// The operation writes a part of the layer that snapshots keep.
pub open spec fn kept_by_snapshot(operation: Operation, id: NodeId) -> bool {
    crate::operations::changes(operation) == Some(id) && (operation is SetTransform
        || operation is SetOpacity || operation is ReplaceData || operation is SetEffects
        || operation is SetBlurs)
}

pub open spec fn all_kept(operations: Seq<Operation>, id: NodeId) -> bool {
    forall|i: int| 0 <= i < operations.len() ==> kept_by_snapshot(#[trigger] operations[i], id)
}

proof fn lemma_previewed_changes_parts(
    content: crate::operations::Content,
    operations: Seq<Operation>,
    id: NodeId,
)
    requires
        content.nodes.dom().contains(id),
        content.nodes[id].id == id,
        all_kept(operations, id),
    ensures
        previewed(content, operations).nodes.dom() == content.nodes.dom(),
        previewed(content, operations) == (crate::operations::Content {
            nodes: content.nodes.insert(id, previewed(content, operations).nodes[id]),
            ..content
        }),
        previewed(content, operations).nodes[id].id == id,
        put_back(previewed(content, operations).nodes[id], snapshot_of(content.nodes[id]))
            == content.nodes[id],
    decreases operations.len(),
{
    if operations.len() == 0 {
        assert(content.nodes.insert(id, content.nodes[id]) =~= content.nodes);
    } else {
        let front = operations.drop_last();
        assert forall|i: int| 0 <= i < front.len() implies kept_by_snapshot(
            #[trigger] front[i],
            id,
        ) by {
            assert(front[i] == operations[i]);
        }
        lemma_previewed_changes_parts(content, front, id);
        assert(kept_by_snapshot(operations[operations.len() - 1], id));
        let before = previewed(content, front);
        let after = previewed(content, operations);
        assert(after.nodes =~= content.nodes.insert(id, after.nodes[id]));
        assert(after.nodes.dom() =~= content.nodes.dom());
    }
}

proof fn lemma_finite_kept(operations: Seq<Operation>, id: NodeId)
    requires
        all_kept(operations, id),
    ensures
        all_kept(finite_operations(operations), id),
    decreases operations.len(),
{
    if operations.len() > 0 {
        let front = operations.drop_last();
        assert forall|i: int| 0 <= i < front.len() implies kept_by_snapshot(
            #[trigger] front[i],
            id,
        ) by {
            assert(front[i] == operations[i]);
        }
        lemma_finite_kept(front, id);
        let rest = finite_operations(front);
        let all = finite_operations(operations);
        assert(kept_by_snapshot(operations[operations.len() - 1], id));
        assert forall|i: int| 0 <= i < all.len() implies kept_by_snapshot(#[trigger] all[i], id) by {
            if i < rest.len() {
                assert(all[i] == rest[i]);
            }
        }
    }
}

/// Cancelling a gesture takes all its previews back: a preview only writes what
/// the snapshot keeps, so that putting the snapshot back gives the content with
/// which the gesture began.
pub proof fn lemma_cancel_restores(
    content: crate::operations::Content,
    id: NodeId,
    operations: Seq<Operation>,
)
    requires
        content.nodes.dom().contains(id),
        content.nodes[id].id == id,
        all_kept(operations, id),
    ensures
        restored(
            previewed(content, finite_operations(operations)),
            snapshot_of(content.nodes[id]),
        ) == content,
{
    lemma_finite_kept(operations, id);
    lemma_previewed_changes_parts(content, finite_operations(operations), id);
    let shown = previewed(content, finite_operations(operations));
    let back = restored(shown, snapshot_of(content.nodes[id]));
    assert(back.nodes =~= content.nodes);
}

/// Operations that are handed over together are one step: undoing it, the last
/// operation first, gives back all that the document held.
pub proof fn lemma_one_step(
    before: OpenDocument,
    after: Option<OpenDocument>,
    operations: Seq<Operation>,
    applied: bool,
)
    requires
        ops_outcome(Some(before), after, operations, applied),
        before.doc.well_formed(),
        before.editable,
        crate::operations::reversible(before.doc.content(), finite_operations(operations)),
    ensures
        after matches Some(now) && {
            let kept = finite_operations(operations);
            &&& applied == (kept.len() > 0)
            &&& crate::panel::recorded(before, now, None, kept)
            &&& crate::operations::all_undone(now.doc.content(), kept) == before.doc.content()
        },
{
    let content = before.doc.content();
    let kept = finite_operations(operations);
    crate::operations::lemma_doc_filed(before.doc);
    crate::operations::lemma_reversible_carried(content, kept);
    crate::operations::lemma_operations_undone(content, kept);
    if kept.len() == 1 {
        assert(kept.drop_last() =~= Seq::<Operation>::empty());
        reveal_with_fuel(crate::operations::carried, 2);
        reveal_with_fuel(crate::operations::all_applied, 2);
    }
}

/// Before any preview the snapshot is the layer itself, so that putting it back
/// changes nothing.
pub proof fn lemma_restore_at_once(content: crate::operations::Content, id: NodeId)
    requires
        content.nodes.dom().contains(id),
        content.nodes[id].id == id,
    ensures
        restored(content, snapshot_of(content.nodes[id])) == content,
{
    lemma_cancel_restores(content, id, Seq::empty());
}

/// Every settings' id was made under a number below the next one, and no two
/// have one id.
pub open spec fn numbered_below(list: Seq<ExportConfiguration>, next: u64) -> bool {
    &&& forall|i: int|
        0 <= i < list.len() ==> exists|number: u64|
            number < next && (#[trigger] list[i]).id@ == #[trigger] export_id(number)
    &&& forall|i: int, j: int|
        0 <= i < j < list.len() ==> (#[trigger] list[i]).id@ != (#[trigger] list[j]).id@
}

/// New export settings never share an id with others.
pub proof fn lemma_export_ids_differ(
    list: Seq<ExportConfiguration>,
    next: u64,
    made: ExportConfiguration,
)
    requires
        numbered_below(list, next),
        new_export(next, made),
        next < u64::MAX,
    ensures
        numbered_below(list.push(made), next.wrapping_add(1)),
{
    let all = list.push(made);
    let after = next.wrapping_add(1);
    assert(after == next + 1);
    assert forall|i: int| 0 <= i < all.len() implies exists|number: u64|
        number < after && (#[trigger] all[i]).id@ == #[trigger] export_id(number) by {
        if i < list.len() {
            assert(all[i] == list[i]);
            let number = choose|number: u64| number < next && list[i].id@ == #[trigger] export_id(
                number,
            );
            assert(number < after && all[i].id@ == export_id(number));
        } else {
            assert(next < after && all[i].id@ == export_id(next));
        }
    }
    assert forall|i: int, j: int| 0 <= i < j < all.len() implies (#[trigger] all[i]).id@ != (
    #[trigger] all[j]).id@ by {
        assert(all[i] == list[i]);
        if j < list.len() {
            assert(all[j] == list[j]);
        } else {
            let number = choose|number: u64| number < next && list[i].id@ == #[trigger] export_id(
                number,
            );
            if export_id(number) == export_id(next) {
                let prefix = "fanta-export-"@;
                assert(export_id(number).skip(prefix.len() as int) =~= crate::text::decimal(
                    number as nat,
                ));
                assert(export_id(next).skip(prefix.len() as int) =~= crate::text::decimal(
                    next as nat,
                ));
                crate::text::lemma_decimal_injective(number as nat, next as nat);
            }
        }
    }
}

} // verus!
