//! Laws: what operations, gestures, export settings, pickers, media, outlines and
//! shaders come to, said of what they are given and of what they give.

use vstd::prelude::*;

use crate::design_session::{
    EditPhase, ExportConfiguration, ExportSettings, NodeSnapshot, PreviewSignature,
};
use crate::design_shaders::{ShaderAssignment, ShaderModel, ShaderPayload};
use crate::document::{BooleanOp, CanvasNode, Doc, LayoutMode, NodeData};
use crate::ids::{DocId, NodeId};
use crate::layer_context_menu::Choice;
use crate::layer_context_ops::LayerAction;
use crate::layer_media::NewMedia;
use crate::layer_outlines::{OutlinePlan, RingCut, SideRing, StrokePlan};
use crate::operations::{Content, Operation};
use crate::paint::{ShaderFill, ShaderPropertyAssignment, ShaderPropertyValue, Stroke, StrokeAlign};
use crate::scalar::Scalar;

verus! {

// ---------------------------------------------------------------------------
// Operations
// ---------------------------------------------------------------------------

/// An operation on a layer writes what its name says, and nothing else: the layer
/// keeps its other parts, and the document all other layers, components, sets and
/// tracks.
pub proof fn lemma_operation_writes(content: Content, operation: Operation, id: NodeId)
    requires
        crate::operations::filed(content),
        content.nodes.dom().contains(id),
        crate::operations::changes(operation) == Some(id),
    ensures
        ({
            let after = crate::operations::applied(content, operation);
            let old = content.nodes[id];
            let now = after.nodes[id];
            &&& after == (Content { nodes: content.nodes.insert(id, now), ..content })
            &&& now.id == old.id && now.name == old.name && now.bindings == old.bindings
            &&& now.is_mask == (if operation is SetMask {
                operation->SetMask_new
            } else {
                old.is_mask
            })
            &&& now.mask_type == (if operation is SetMaskType {
                operation->SetMaskType_new
            } else {
                old.mask_type
            })
            &&& now.flags == (if operation is SetFlags {
                operation->SetFlags_new
            } else {
                old.flags
            })
            &&& now.transform == (if operation is SetTransform {
                operation->SetTransform_new
            } else {
                old.transform
            })
            &&& now.opacity == (if operation is SetOpacity {
                operation->SetOpacity_new
            } else {
                old.opacity
            })
            &&& now.blend_mode == (if operation is SetBlendMode {
                operation->SetBlendMode_new
            } else {
                old.blend_mode
            })
            &&& now.effects == (if operation is SetEffects {
                operation->SetEffects_new
            } else {
                old.effects
            })
            &&& now.blurs == (if operation is SetBlurs {
                operation->SetBlurs_new
            } else {
                old.blurs
            })
            &&& now.layout_child == (if operation is SetLayoutChild {
                operation->SetLayoutChild_new
            } else {
                old.layout_child
            })
            &&& now.meta == (if operation is SetMeta {
                operation->SetMeta_new
            } else {
                old.meta
            })
            &&& now.parent == (if operation is Reparent {
                operation->new_parent
            } else {
                old.parent
            })
            &&& now.index == (if operation is Reparent {
                operation->new_index
            } else if operation is SetIndex {
                operation->SetIndex_new
            } else {
                old.index
            })
            &&& now.data == (if operation is ReplaceData {
                operation->ReplaceData_new
            } else {
                old.data
            })
        }),
{
}

/// The first layer that is created is there afterwards as it was given, the one
/// that is deleted is gone, and all other layers are as they were.
pub proof fn lemma_layer_comes_and_goes(content: Content, node: CanvasNode, operation: Operation)
    requires
        crate::operations::applicable(content, operation),
        operation matches Operation::CreateNode { node: made } && *made == node || (
        operation matches Operation::DeleteNode { node: gone } && *gone == node),
    ensures
        ({
            let after = crate::operations::applied(content, operation);
            &&& content.nodes.dom().contains(node.id) == operation is DeleteNode
            &&& after.nodes.dom().contains(node.id) == operation is CreateNode
            &&& operation is CreateNode ==> after.nodes[node.id] == node
            &&& forall|other: NodeId| #[trigger]
                content.nodes.dom().contains(other) && other != node.id
                    ==> after.nodes.dom().contains(other) && after.nodes[other]
                    == content.nodes[other]
            &&& after == (Content { nodes: after.nodes, ..content })
        }),
{
}

// ---------------------------------------------------------------------------
// Gestures
// ---------------------------------------------------------------------------

/// Putting a snapshot back gives the layer the transform, opacity, data, shadows
/// and blurs that the snapshot was taken with, and changes nothing else.
pub proof fn lemma_snapshot_goes_back(content: Content, taken: CanvasNode, snapshot: NodeSnapshot)
    requires
        content.nodes.dom().contains(taken.id),
        snapshot == crate::design_session::snapshot_of(taken),
    ensures
        ({
            let after = crate::design_session::restored(content, snapshot);
            let old = content.nodes[taken.id];
            let now = after.nodes[taken.id];
            &&& after == (Content { nodes: content.nodes.insert(taken.id, now), ..content })
            &&& now.transform == taken.transform
            &&& now.opacity == taken.opacity
            &&& now.data == taken.data
            &&& now.effects == taken.effects
            &&& now.blurs == taken.blurs
            &&& now.id == old.id && now.parent == old.parent && now.index == old.index
            &&& now.name == old.name && now.flags == old.flags
            &&& now.blend_mode == old.blend_mode && now.is_mask == old.is_mask
            &&& now.mask_type == old.mask_type && now.layout_child == old.layout_child
            &&& now.bindings == old.bindings && now.meta == old.meta
        }),
{
}

/// A layer that is gone does not come back with its snapshot.
pub proof fn lemma_gone_stays_gone(content: Content, snapshot: NodeSnapshot)
    requires
        !content.nodes.dom().contains(snapshot.id),
    ensures
        crate::design_session::restored(content, snapshot) == content,
{
}

/// Of the operations that are handed over exactly those are left out that would
/// give a layer a transform that is not finite; the others stay in their order.
pub proof fn lemma_only_broken_left_out(operations: Seq<Operation>, last: Operation)
    ensures
        ({
            let kept = crate::design_session::finite_operations(operations);
            let more = crate::design_session::finite_operations(operations.push(last));
            if last is SetTransform && !last->SetTransform_new.finite() {
                more == kept
            } else {
                more == kept.push(last)
            }
        }),
        crate::design_session::finite_operations(Seq::empty()) == Seq::<Operation>::empty(),
        forall|i: int|
            0 <= i < crate::design_session::finite_operations(operations).len() ==> ((
            #[trigger] crate::design_session::finite_operations(
                operations,
            )[i]) matches Operation::SetTransform { new, .. } ==> new.finite()),
    decreases operations.len(),
{
    assert(operations.push(last).drop_last() =~= operations);
    if operations.len() > 0 {
        lemma_only_broken_left_out(operations.drop_last(), operations.last());
        assert(operations.drop_last().push(operations.last()) =~= operations);
    }
}

/// Operations are carried out up to the first that cannot be: what is taken is a
/// first part of the list that can be carried out, and either all of it or up to
/// an operation that cannot be carried out there.
pub proof fn lemma_taken_up_to_first_failure(content: Content, operations: Seq<Operation>)
    ensures
        ({
            let part = crate::design_session::taken_list(content, operations);
            &&& part.len() <= operations.len()
            &&& part == operations.take(part.len() as int)
            &&& crate::operations::carried(content, part)
            &&& part.len() < operations.len() ==> !crate::operations::applicable(
                crate::operations::all_applied(content, part),
                operations[part.len() as int],
            )
        }),
    decreases operations.len(),
{
    let part = crate::design_session::taken_list(content, operations);
    if operations.len() == 0 || crate::operations::carried(content, operations) {
        assert(part =~= operations.take(part.len() as int));
    } else {
        let rest = operations.drop_last();
        lemma_taken_up_to_first_failure(content, rest);
        assert(part =~= operations.take(part.len() as int));
        if part.len() == rest.len() {
            assert(part =~= rest);
        } else {
            assert(rest[part.len() as int] == operations[part.len() as int]);
        }
    }
}

// ---------------------------------------------------------------------------
// Export settings
// ---------------------------------------------------------------------------

/// Removing export settings removes all of the id, and keeps all others in their
/// order.
pub proof fn lemma_export_removed(
    list: Seq<ExportConfiguration>,
    last: ExportConfiguration,
    id: Seq<char>,
)
    ensures
        ({
            let rest = crate::design_session::without_export(list, id);
            let more = crate::design_session::without_export(list.push(last), id);
            if last.id@ == id {
                more == rest
            } else {
                more == rest.push(last)
            }
        }),
        crate::design_session::without_export(Seq::empty(), id) == Seq::<
            ExportConfiguration,
        >::empty(),
        forall|i: int|
            0 <= i < crate::design_session::without_export(list, id).len() ==> (
            #[trigger] crate::design_session::without_export(list, id)[i]).id@ != id,
    decreases list.len(),
{
    assert(list.push(last).drop_last() =~= list);
    if list.len() > 0 {
        lemma_export_removed(list.drop_last(), list.last(), id);
        assert(list.drop_last().push(list.last()) =~= list);
    }
}

/// Changing export settings gives the first of the id the new settings under its
/// id, and leaves all others as they are, in their places; where none has the id
/// it changes nothing.
pub proof fn lemma_export_changed(
    list: Seq<ExportConfiguration>,
    id: Seq<char>,
    settings: ExportSettings,
    at: int,
)
    requires
        0 <= at <= list.len(),
        forall|k: int| 0 <= k < at ==> (#[trigger] list[k]).id@ != id,
        at < list.len() ==> list[at].id@ == id,
    ensures
        crate::design_session::export_changed(list, id, settings) == (if at < list.len() {
            list.update(at, ExportConfiguration { id: list[at].id, settings: settings })
        } else {
            list
        }),
    decreases list.len(),
{
    if list.len() > 0 && at > 0 {
        let rest = list.skip(1);
        assert(list[0].id@ != id);
        assert forall|k: int| 0 <= k < at - 1 implies (#[trigger] rest[k]).id@ != id by {
            assert(list[k + 1].id@ != id);
        }
        lemma_export_changed(rest, id, settings, at - 1);
        if at < list.len() {
            let one = ExportConfiguration { id: list[at].id, settings: settings };
            assert(seq![list[0]] + rest.update(at - 1, one) =~= list.update(at, one));
        } else {
            assert(seq![list[0]] + rest =~= list);
        }
    }
}

/// Beginning to change export settings changes none of them; a preview and a
/// commit show the same, and only a preview can still be taken back.
pub proof fn lemma_export_preview_is_commit(
    before: crate::design_session::DesignAdapter,
    shown: crate::design_session::DesignAdapter,
    kept: crate::design_session::DesignAdapter,
    id: Seq<char>,
    settings: ExportSettings,
)
    requires
        crate::design_session::export_phase(before, shown, id, settings, EditPhase::Preview),
        crate::design_session::export_phase(before, kept, id, settings, EditPhase::Commit),
    ensures
        shown.exports@ == kept.exports@,
        shown.export_snapshot == before.export_snapshot,
        kept.export_snapshot is None,
        shown.session == before.session && kept.session == before.session,
        shown.last_echo is None && kept.last_echo is None,
{
}

proof fn lemma_preview_inserted(list: Seq<PreviewSignature>, one: PreviewSignature)
    requires
        forall|i: int, j: int|
            0 <= i < j < list.len() ==> (#[trigger] list[i]).asset.raw <= (
            #[trigger] list[j]).asset.raw,
    ensures
        ({
            let after = crate::design_session::preview_inserted(list, one);
            &&& after.to_multiset() == list.to_multiset().insert(one)
            &&& forall|i: int, j: int|
                0 <= i < j < after.len() ==> (#[trigger] after[i]).asset.raw <= (
                #[trigger] after[j]).asset.raw
            &&& forall|i: int|
                0 <= i < after.len() ==> (#[trigger] after[i]) == one || list.contains(after[i])
        }),
    decreases list.len(),
{
    broadcast use vstd::seq_lib::group_to_multiset_ensures;

    let after = crate::design_session::preview_inserted(list, one);
    if list.len() == 0 || list.last().asset.raw <= one.asset.raw {
        assert forall|i: int| 0 <= i < after.len() implies (#[trigger] after[i]) == one
            || list.contains(after[i]) by {
            if i < list.len() {
                assert(list[i] == after[i]);
            }
        }
    } else {
        let rest = list.drop_last();
        let low = crate::design_session::preview_inserted(rest, one);
        lemma_preview_inserted(rest, one);
        assert(list =~= rest.push(list.last()));
        assert(after.to_multiset() =~= list.to_multiset().insert(one));
        assert forall|i: int, j: int| 0 <= i < j < after.len() implies (
        #[trigger] after[i]).asset.raw <= (#[trigger] after[j]).asset.raw by {
            assert(after[i] == low[i]);
            if j == low.len() {
                if low[i] != one {
                    let k = choose|k: int| 0 <= k < rest.len() && rest[k] == low[i];
                    assert(list[k] == low[i]);
                }
            } else {
                assert(after[j] == low[j]);
            }
        }
        assert forall|i: int| 0 <= i < after.len() implies (#[trigger] after[i]) == one
            || list.contains(after[i]) by {
            if i < low.len() {
                assert(after[i] == low[i]);
                if low[i] != one {
                    let k = choose|k: int| 0 <= k < rest.len() && rest[k] == low[i];
                    assert(list[k] == low[i]);
                }
            } else {
                assert(list[list.len() - 1] == after[i]);
            }
        }
    }
}

/// The previews that are compared stand in the order of their assets, and are those
/// that were given, as often as they were given.
pub proof fn lemma_previews_sorted(list: Seq<PreviewSignature>)
    ensures
        ({
            let sorted = crate::design_session::previews_sorted(list);
            &&& sorted.to_multiset() == list.to_multiset()
            &&& forall|i: int, j: int|
                0 <= i < j < sorted.len() ==> (#[trigger] sorted[i]).asset.raw <= (
                #[trigger] sorted[j]).asset.raw
        }),
    decreases list.len(),
{
    broadcast use vstd::seq_lib::group_to_multiset_ensures;

    if list.len() > 0 {
        lemma_previews_sorted(list.drop_last());
        lemma_preview_inserted(
            crate::design_session::previews_sorted(list.drop_last()),
            list.last(),
        );
        assert(list =~= list.drop_last().push(list.last()));
    }
}

// ---------------------------------------------------------------------------
// Pickers
// ---------------------------------------------------------------------------

/// The choice is among those on offer.
pub open spec fn offers(choices: Seq<(Seq<char>, Choice)>, choice: Choice) -> bool {
    exists|i: int| 0 <= i < choices.len() && (#[trigger] choices[i]).1 == choice
}

proof fn lemma_other_pages(doc: Doc, pages: Seq<NodeId>, id: NodeId, page: NodeId)
    ensures
        offers(
            crate::layer_context_menu::other_pages(doc, pages, id),
            Choice::Page(page),
        ) == (pages.contains(page) && page != id && crate::scene::find(doc.nodes@, page) is Some
            && !crate::scene::is_above(doc.nodes@, page, id)),
        forall|i: int|
            0 <= i < crate::layer_context_menu::other_pages(doc, pages, id).len() ==> ({
                let entry = #[trigger] crate::layer_context_menu::other_pages(doc, pages, id)[i];
                &&& entry.1 is Page
                &&& crate::scene::find(doc.nodes@, entry.1->Page_0) matches Some(node) && entry.0
                    == node.name@
            }),
    decreases pages.len(),
{
    if pages.len() > 0 {
        let rest = pages.drop_last();
        let last = pages.last();
        lemma_other_pages(doc, rest, id, page);
        let low = crate::layer_context_menu::other_pages(doc, rest, id);
        let all = crate::layer_context_menu::other_pages(doc, pages, id);
        assert(pages.contains(page) <==> rest.contains(page) || page == last) by {
            if pages.contains(page) && page != last {
                let k = choose|k: int| 0 <= k < pages.len() && pages[k] == page;
                assert(rest[k] == page);
            }
            if rest.contains(page) {
                let k = choose|k: int| 0 <= k < rest.len() && rest[k] == page;
                assert(pages[k] == page);
            }
            assert(pages[pages.len() - 1] == last);
        }
        if offers(low, Choice::Page(page)) {
            let k = choose|k: int| 0 <= k < low.len() && (#[trigger] low[k]).1 == Choice::Page(page);
            assert(all[k] == low[k]);
        }
        if offers(all, Choice::Page(page)) {
            let k = choose|k: int| 0 <= k < all.len() && (#[trigger] all[k]).1 == Choice::Page(page);
            if k < low.len() {
                assert(low[k] == all[k]);
            }
        }
        if all.len() > low.len() {
            assert(all[low.len() as int].1 == Choice::Page(last));
        }
    }
}

/// A layer can be moved to exactly the pages of the document that are there, that
/// it is not itself and that it does not stand on; each goes by its name.
pub proof fn lemma_pages_offered(doc: Doc, may_edit: bool, id: NodeId, page: NodeId)
    ensures
        ({
            let offered = crate::layer_context_menu::offered(
                doc,
                may_edit,
                id,
                LayerAction::MoveToPage,
            );
            &&& offered matches Some(choices)
            &&& offers(choices, Choice::Page(page)) == (doc.pages@.contains(page) && page != id
                && crate::scene::find(doc.nodes@, page) is Some && !crate::scene::is_above(
                doc.nodes@,
                page,
                id,
            ))
            &&& forall|i: int|
                0 <= i < choices.len() ==> (#[trigger] choices[i]).1 is Page && (
                crate::scene::find(doc.nodes@, choices[i].1->Page_0) matches Some(node)
                    && choices[i].0 == node.name@)
        }),
{
    lemma_other_pages(doc, doc.pages@, id, page);
}

/// A layout can always be given, in a row or in a column; wrapping can be turned
/// and the layout taken away exactly from a frame that has one.
pub proof fn lemma_layouts_offered(doc: Doc, may_edit: bool, id: NodeId)
    requires
        doc.well_formed(),
    ensures
        ({
            let offered = crate::layer_context_menu::offered(
                doc,
                may_edit,
                id,
                LayerAction::MoreLayoutOptions,
            );
            let laid_out = doc.content().nodes.dom().contains(id) && (
            *doc.content().nodes[id].data matches NodeData::Group(group)
                && group.auto_layout is Some);
            &&& offered matches Some(choices)
            &&& offers(choices, Choice::Layout(Some(LayoutMode::Horizontal)))
            &&& offers(choices, Choice::Layout(Some(LayoutMode::Vertical)))
            &&& offers(choices, Choice::ToggleWrap) == laid_out
            &&& offers(choices, Choice::Layout(None)) == laid_out
        }),
{
    crate::operations::lemma_find_is_content(doc, id);
    let with_layout = crate::layer_context_menu::has_layout(doc, id);
    let choices = crate::layer_context_menu::layout_choices(with_layout);
    assert(choices[0].1 == Choice::Layout(Some(LayoutMode::Horizontal)));
    assert(choices[1].1 == Choice::Layout(Some(LayoutMode::Vertical)));
    if with_layout {
        assert(choices[2].1 == Choice::ToggleWrap);
        assert(choices[3].1 == Choice::Layout(None));
    }
}

/// A layer's look and its picture can always be copied; a look can be pasted exactly
/// where the document and the layer may be edited.
pub proof fn lemma_copies_offered(doc: Doc, may_edit: bool, id: NodeId)
    ensures
        ({
            let offered = crate::layer_context_menu::offered(
                doc,
                may_edit,
                id,
                LayerAction::CopyPasteAs,
            );
            &&& offered matches Some(choices)
            &&& offers(choices, Choice::CopySvg)
            &&& offers(choices, Choice::CopyPng)
            &&& offers(choices, Choice::CopyProperties)
            &&& offers(choices, Choice::PasteProperties) == (may_edit
                && crate::layer_context_ops::can_edit(doc, id))
        }),
{
    let may_paste = may_edit && crate::layer_context_ops::can_edit(doc, id);
    let choices = crate::layer_context_menu::copy_choices(may_paste);
    assert(choices[0].1 == Choice::CopySvg);
    assert(choices[1].1 == Choice::CopyPng);
    assert(choices[2].1 == Choice::CopyProperties);
    if may_paste {
        assert(choices[3].1 == Choice::PasteProperties);
    }
}

/// The number, between a half and two, is the one next to a quotient.
pub open spec fn is_quotient(x: Scalar, over: int, under: int) -> bool {
    let unit: int = if x.exponent() == 1023 {
        0x10_0000_0000_0000
    } else {
        0x20_0000_0000_0000
    };
    &&& x.rank() > 0
    &&& x.exponent() == 1023 || x.exponent() == 1022
    &&& -under <= 2 * (x.significand() * under - over * unit) <= under
}

/// A picture is cropped to a square, to four by three, to sixteen by nine, and to
/// the last two upright, or not at all.
pub proof fn lemma_ratios_offered(doc: Doc, may_edit: bool, id: NodeId)
    ensures
        ({
            let offered = crate::layer_context_menu::offered(
                doc,
                may_edit,
                id,
                LayerAction::CropImage,
            );
            &&& offered matches Some(choices)
            &&& choices.len() == 7
            &&& choices[0].1 == Choice::CustomCrop
            &&& choices[1].1 matches Choice::Crop(Some(ratio)) && is_quotient(ratio, 1, 1)
            &&& choices[2].1 matches Choice::Crop(Some(ratio)) && is_quotient(ratio, 4, 3)
            &&& choices[3].1 matches Choice::Crop(Some(ratio)) && is_quotient(ratio, 16, 9)
            &&& choices[4].1 matches Choice::Crop(Some(ratio)) && is_quotient(ratio, 3, 4)
            &&& choices[5].1 matches Choice::Crop(Some(ratio)) && is_quotient(ratio, 9, 16)
            &&& choices[6].1 == Choice::Crop(None)
        }),
{
}

// ---------------------------------------------------------------------------
// Media
// ---------------------------------------------------------------------------

/// Media go into a layer exactly where the document is still the one they were
/// chosen for, the layer may be edited, and a picture meets a picture or a video a
/// video.
pub proof fn lemma_media_taken(doc: Doc, expected: DocId, id: NodeId, media: NewMedia)
    requires
        doc.well_formed(),
    ensures
        (crate::layer_media::media_refusal(doc, expected, id, media) is None) == (doc.id == expected
            && crate::layer_context_ops::can_edit(doc, id) && (media is Image
            && *doc.content().nodes[id].data is Bitmap || media is Video
            && *doc.content().nodes[id].data is Video)),
{
    crate::operations::lemma_find_is_content(doc, id);
}

/// A layer with new media shows them whole, at the size and fit that it had: a
/// picture loses its crop, a video plays from its start to its end behind its own
/// poster. Nothing else of the document changes.
pub proof fn lemma_media_land(before: Doc, after: Doc, id: NodeId, media: NewMedia)
    requires
        before.content().nodes.dom().contains(id),
        crate::layer_media::media_replaced(before, after, id, media),
    ensures
        ({
            let old = before.content().nodes[id];
            let now = after.content().nodes[id];
            &&& after.content().nodes == before.content().nodes.insert(id, now)
            &&& now == (CanvasNode { data: now.data, ..old })
            &&& match media {
                NewMedia::Image { asset, natural_size } => *old.data matches NodeData::Bitmap(
                    was,
                ) && (*now.data matches NodeData::Bitmap(is) && is.asset == asset
                    && is.natural_size == natural_size && is.crop is None && is.fit == was.fit
                    && is.local_size == was.local_size),
                NewMedia::Video { asset, natural_size, duration_us, poster } =>
                    *old.data matches NodeData::Video(was) && (*now.data matches NodeData::Video(
                    is,
                ) && is.asset == asset && is.natural_size == natural_size && is.start_us == 0
                    && is.end_us == duration_us && is.local_size == was.local_size && (match poster {
                    Some(poster) => is.poster == Some(poster.asset) && is.poster_frame_us == Some(
                        poster.time_us,
                    ),
                    None => is.poster is None && is.poster_frame_us is None,
                })),
            }
        }),
{
    let now = after.content().nodes[id];
    assert(after.content().nodes =~= before.content().nodes.insert(id, now)) by {
        assert forall|other: NodeId| #[trigger]
            after.content().nodes.dom().contains(other) implies after.content().nodes[other]
            == before.content().nodes.insert(id, now)[other] by {
            if other != id {
                assert(before.content().nodes.dom().contains(other));
            }
        }
    }
}

/// Whatever is stored for media is handed back when they are not taken: the media,
/// and the poster of a video.
pub proof fn lemma_assets_listed(media: NewMedia)
    ensures
        match media {
            NewMedia::Image { asset, .. } => media.asset_list() == seq![asset],
            NewMedia::Video { asset, poster, .. } => {
                &&& media.asset_list().contains(asset)
                &&& poster matches Some(poster) ==> media.asset_list().contains(poster.asset)
                &&& media.asset_list().len() == (if poster is Some {
                    2int
                } else {
                    1int
                })
            },
        },
{
    let list = media.asset_list();
    if let NewMedia::Video { asset, poster, .. } = media {
        assert(list[list.len() - 1] == asset);
        if let Some(poster) = poster {
            assert(list[0] == poster.asset);
        }
    }
}

// ---------------------------------------------------------------------------
// Outlines
// ---------------------------------------------------------------------------

/// The outline of a layer takes all its children that are not hidden, in paint
/// order, and no others: a hidden one more changes nothing, a visible one more
/// comes last.
pub proof fn lemma_hidden_left_out(nodes: Seq<CanvasNode>, last: CanvasNode)
    ensures
        crate::layer_outlines::visible(Seq::empty()) == Seq::<CanvasNode>::empty(),
        crate::layer_outlines::visible(nodes.push(last)) == (if last.flags.hidden {
            crate::layer_outlines::visible(nodes)
        } else {
            crate::layer_outlines::visible(nodes).push(last)
        }),
{
    assert(nodes.push(last).drop_last() =~= nodes);
}

/// The outline of a boolean layer combines its parts as the layer says, that of a
/// group unites them; a group that shows a paint adds its own box, the clipped one
/// where it clips.
pub proof fn lemma_outline_combines(plan: OutlinePlan, doc: Doc, id: NodeId, depth: nat)
    requires
        doc.well_formed(),
        doc.content().nodes.dom().contains(id),
        crate::layer_outlines::plans(plan, doc, id, depth),
        plan is Combined,
    ensures
        match *doc.content().nodes[id].data {
            NodeData::Boolean(boolean) => plan->op == boolean.op && plan->base is None,
            NodeData::Group(group) => {
                &&& plan->op == BooleanOp::Union
                &&& plan->base is Some ==> group.paints().len() > 0
                &&& group.paints().len() > 0 && group.clip_size is Some ==> plan->base
                    == group.clip_size
                &&& group.paints().len() > 0 && group.clip_size is None ==> plan->base
                    == group.local_size
            },
            _ => false,
        },
{
    crate::operations::lemma_find_is_content(doc, id);
}

/// A stroke in the middle is drawn whole, one inside keeps what lies inside and one
/// outside what lies outside. Of sides with widths of their own each is drawn, once
/// and at its width, unless the width is zero or less.
pub proof fn lemma_rings_follow_stroke(stroke: Stroke, plan: StrokePlan)
    requires
        call_ensures(crate::layer_outlines::stroke_geometry, (&stroke,), plan),
    ensures
        ({
            let cut = if plan is Ring {
                plan->Ring_cut
            } else {
                plan->Sides_cut
            };
            &&& cut == RingCut::Whole <==> stroke.align == StrokeAlign::Center
            &&& cut == RingCut::Inside <==> stroke.align == StrokeAlign::Inside
            &&& cut == RingCut::Outside <==> stroke.align == StrokeAlign::Outside
        }),
        plan is Ring <==> stroke.per_side is None,
        plan is Ring ==> plan->width == stroke.width,
        stroke.per_side matches Some(sides) ==> {
            &&& forall|side: u8|
                side < 4 ==> (#[trigger] plan->sides@.contains(
                    SideRing { side: side, width: sides.at(side) },
                )) == !sides.at(side).le(Scalar::of(crate::scalar::ZERO))
            &&& forall|i: int|
                0 <= i < plan->sides@.len() ==> (#[trigger] plan->sides@[i]).side < 4
                    && plan->sides@[i].width == sides.at(plan->sides@[i].side)
            &&& forall|i: int, j: int|
                0 <= i < j < plan->sides@.len() ==> (#[trigger] plan->sides@[i]).side < (
                #[trigger] plan->sides@[j]).side
        },
{
    if let Some(sides) = stroke.per_side {
        lemma_wide_sides(sides, 4);
    }
}

proof fn lemma_wide_sides(sides: crate::paint::Quad, n: nat)
    requires
        n <= 4,
    ensures
        ({
            let rings = crate::layer_outlines::wide_sides(sides, n);
            &&& forall|side: u8|
                side < n ==> (#[trigger] rings.contains(
                    SideRing { side: side, width: sides.at(side) },
                )) == !sides.at(side).le(Scalar::of(crate::scalar::ZERO))
            &&& forall|i: int|
                0 <= i < rings.len() ==> (#[trigger] rings[i]).side < n && rings[i].width
                    == sides.at(rings[i].side)
            &&& forall|i: int, j: int|
                0 <= i < j < rings.len() ==> (#[trigger] rings[i]).side < (
                #[trigger] rings[j]).side
        }),
    decreases n,
{
    let rings = crate::layer_outlines::wide_sides(sides, n);
    if n > 0 {
        let m = (n - 1) as nat;
        let low = crate::layer_outlines::wide_sides(sides, m);
        lemma_wide_sides(sides, m);
        assert forall|side: u8| side < n implies (#[trigger] rings.contains(
            SideRing { side: side, width: sides.at(side) },
        )) == !sides.at(side).le(Scalar::of(crate::scalar::ZERO)) by {
            let one = SideRing { side: side, width: sides.at(side) };
            if side < m {
                assert(low.contains(one) == !sides.at(side).le(Scalar::of(crate::scalar::ZERO)));
                if low.contains(one) {
                    let k = choose|k: int| 0 <= k < low.len() && low[k] == one;
                    assert(rings[k] == one);
                }
                if rings.contains(one) {
                    let k = choose|k: int| 0 <= k < rings.len() && rings[k] == one;
                    assert(k < low.len());
                    assert(low[k] == one);
                }
            } else {
                assert(side == m);
                if rings.len() > low.len() {
                    assert(rings[low.len() as int] == one);
                } else {
                    assert(rings == low);
                }
            }
        }
    }
}

// ---------------------------------------------------------------------------
// Shaders
// ---------------------------------------------------------------------------

/// Of the values that are asked for, those go into a shader paint, in their order,
/// that can be kept and that are of the kind of their property, where the shader
/// knows the property.
pub proof fn lemma_values_accepted(
    shader: ShaderModel,
    list: Seq<ShaderAssignment>,
    last: ShaderAssignment,
)
    ensures
        crate::design_shaders::accepted(shader, Seq::empty()) == Seq::<
            ShaderPropertyAssignment,
        >::empty(),
        ({
            let before = crate::design_shaders::accepted(shader, list);
            let after = crate::design_shaders::accepted(shader, list.push(last));
            let known = crate::design_shaders::has_property(shader, last.definition_id@);
            let broken = last.value matches ShaderPropertyValue::Number(number)
                && !number.finite();
            if broken || known && !last.fits {
                after == before
            } else {
                after == before.push(
                    ShaderPropertyAssignment {
                        definition_id: last.definition_id,
                        value: last.value,
                    },
                )
            }
        }),
{
    assert(list.push(last).drop_last() =~= list);
}

/// The values of a shader paint are shown in their order, but for numbers that are
/// not finite.
pub proof fn lemma_values_shown(
    list: Seq<ShaderPropertyAssignment>,
    last: ShaderPropertyAssignment,
)
    ensures
        crate::design_shaders::shown_assignments(Seq::empty()) == Seq::<
            ShaderPropertyAssignment,
        >::empty(),
        crate::design_shaders::shown_assignments(list.push(last)) == (
        if last.value matches ShaderPropertyValue::Number(number) && !number.finite() {
            crate::design_shaders::shown_assignments(list)
        } else {
            crate::design_shaders::shown_assignments(list).push(last)
        }),
{
    assert(list.push(last).drop_last() =~= list);
}

proof fn lemma_carried_from(
    shader: ShaderModel,
    list: Seq<ShaderPropertyAssignment>,
    previous: Seq<ShaderPropertyAssignment>,
)
    ensures
        ({
            let all = crate::design_shaders::carried_over(shader, list, previous);
            forall|i: int|
                list.len() <= i < all.len() ==> previous.contains(#[trigger] all[i]) && (
                all[i].value is Opaque || !crate::design_shaders::has_property(
                    shader,
                    all[i].definition_id@,
                )) && !crate::design_shaders::assigns(all.take(i), all[i].definition_id@)
        }),
    decreases previous.len(),
{
    crate::design_shaders::lemma_carried_over_keeps(shader, list, previous);
    if previous.len() > 0 {
        let rest = previous.drop_last();
        lemma_carried_from(shader, list, rest);
        crate::design_shaders::lemma_carried_over_keeps(shader, list, rest);
        let low = crate::design_shaders::carried_over(shader, list, rest);
        let all = crate::design_shaders::carried_over(shader, list, previous);
        assert forall|i: int| list.len() <= i < all.len() implies previous.contains(
            #[trigger] all[i],
        ) && (all[i].value is Opaque || !crate::design_shaders::has_property(
            shader,
            all[i].definition_id@,
        )) && !crate::design_shaders::assigns(all.take(i), all[i].definition_id@) by {
            assert(all.take(i) =~= low.take(i));
            if i < low.len() {
                assert(all[i] == low[i]);
                let k = choose|k: int| 0 <= k < rest.len() && rest[k] == low[i];
                assert(previous[k] == all[i]);
            } else {
                assert(low.take(i) =~= low);
                assert(previous[previous.len() - 1] == all[i]);
            }
        }
    }
}

/// A shader paint is the shader that was asked for. It holds the values that were
/// accepted first, and behind them only what the same shader's paint held before
/// and the panel cannot show: opaque values and values of properties that the
/// shader does not know, each where its id has no value yet.
pub proof fn lemma_shader_chosen(
    payload: ShaderPayload,
    previous: Option<ShaderFill>,
    shader: ShaderModel,
    fill: ShaderFill,
)
    requires
        crate::design_shaders::bundled(payload.shader_id@) == Some(shader),
        crate::design_shaders::shader_built(payload, previous, Some(fill)),
    ensures
        fill.shader_id@ == payload.shader_id@,
        ({
            let own = crate::design_shaders::accepted(shader, payload.properties@);
            let all = fill.properties@;
            &&& own.len() <= all.len()
            &&& all.take(own.len() as int) == own
            &&& forall|i: int|
                own.len() <= i < all.len() ==> previous is Some && previous->0.shader_id@
                    == payload.shader_id@ && previous->0.properties@.contains(#[trigger] all[i])
                    && (all[i].value is Opaque || !crate::design_shaders::has_property(
                    shader,
                    all[i].definition_id@,
                )) && !crate::design_shaders::assigns(all.take(i), all[i].definition_id@)
        }),
{
    let own = crate::design_shaders::accepted(shader, payload.properties@);
    assert(own.take(own.len() as int) =~= own);
    if let Some(before) = previous {
        crate::design_shaders::lemma_carried_over_keeps(shader, own, before.properties@);
        lemma_carried_from(shader, own, before.properties@);
    }
}

} // verus!
