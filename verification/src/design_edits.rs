//! Edits of properties, carried through a gesture or out at once, and commands
//! that first give up the gesture that is under way.

use vstd::prelude::*;
use vstd::string::*;

use crate::design_header::{HeaderCommand, HeaderEffect, HeaderFacts, SelectionHeader};
use crate::design_host::{realize, realize_all, HostEdit};
use crate::design_properties::{property_operations, PropertyEdit, PropertyFacts};
use crate::design_session::{DesignAdapter, EditPhase};
use crate::design_targets::{
    arrange_operations, rotate_clockwise_operations, targeted_property_operations, AddLayoutFacts,
    ArrangeOperation, CenterSpans, DesignTarget, TargetFacts, TargetedEdit,
};
use crate::design_values::{DesignProperty, DesignValue};
use crate::document::Doc;
use crate::ids::{DocId, NodeId};
use crate::layer_context_menu::{Choice, ContextEffect, ContextFacts};
use crate::layer_errors::LayerError;
use crate::layer_media::MediaSlot;
use crate::operations::Operation;
use crate::paint::{CropWindow, Size};
use crate::panel::{DocChange, FantaDesignPanel, LayerEdit, OpenDocument};
use crate::scalar::Scalar;

verus! {

// ---------------------------------------------------------------------------
// Properties
// ---------------------------------------------------------------------------

/// What an edit of a property of a layer offers: nothing where the property, or
/// the value for it, is not wired.
pub open spec fn property_offered<H: Fn(&Doc, HostEdit) -> Vec<Operation>>(
    host: H,
    id: NodeId,
    property: DesignProperty,
    value: DesignValue,
    facts: PropertyFacts,
    seen: Doc,
    offered: Option<Vec<Operation>>,
) -> bool {
    exists|edit: Option<PropertyEdit>| #[trigger]
        crate::design_properties::property_outcome(seen, id, property, value, facts, edit) && (
        match edit {
            Some(edit) => offered matches Some(operations) && crate::design_host::realized(
                host,
                seen,
                id,
                edit,
                operations,
            ),
            None => offered is None,
        })
}

pub open spec fn property_offers<H: Fn(&Doc, HostEdit) -> Vec<Operation>>(
    host: H,
    id: NodeId,
    property: DesignProperty,
    value: DesignValue,
    facts: PropertyFacts,
) -> spec_fn(Doc, Option<Vec<Operation>>) -> bool {
    |seen: Doc, offered: Option<Vec<Operation>>|
        property_offered(host, id, property, value, facts, seen, offered)
}

pub(crate) fn offer_property<H: Fn(&Doc, HostEdit) -> Vec<Operation>>(
    host: &H,
    id: NodeId,
    property: DesignProperty,
    value: &DesignValue,
    facts: &PropertyFacts,
    doc: &Doc,
) -> (offered: Option<Vec<Operation>>)
    requires
        forall|edit: HostEdit| #[trigger] host.requires((doc, edit)),
    ensures
        property_offered(*host, id, property, *value, *facts, *doc, offered),
{
    let edit = property_operations(doc, id, property, value, facts);
    assert(crate::design_properties::property_outcome(*doc, id, property, *value, *facts, edit));
    match edit {
        Some(edit) => Some(realize(host, doc, id, edit)),
        None => None,
    }
}

impl DesignAdapter {
    /// One phase of an edit of a property of a layer. Gives back, where a gesture
    /// ended, whether its edit was carried out, and whether a committed edit is
    /// not wired.
    pub fn edit_property<H: Fn(&Doc, HostEdit) -> Vec<Operation>>(
        &mut self,
        open: &mut Option<OpenDocument>,
        id: NodeId,
        property: DesignProperty,
        value: &DesignValue,
        facts: &PropertyFacts,
        phase: EditPhase,
        host: H,
    ) -> (r: (Option<bool>, bool))
        requires
            crate::design_session::in_order(*old(open)),
            forall|doc: &Doc, edit: HostEdit|
                doc.well_formed() ==> #[trigger] host.requires((doc, edit)),
        ensures
            crate::design_session::in_order(*final(open)),
            r.1 ==> phase == EditPhase::Commit && crate::design_session::may_be_edited(*old(open)),
            crate::design_session::phase_outcome(
                crate::design_session::offer_builder(
                    property_offers(host, id, property, *value, *facts),
                    crate::design_session::wired_at(phase, r.1),
                ),
                *old(self),
                *final(self),
                *old(open),
                *final(open),
                id,
                phase,
                false,
                r.0,
            ),
    {
        let ghost before = *self;
        let ghost open_before = *open;
        let build = |doc: &Doc| -> (offered: Option<Vec<Operation>>)
            requires
                doc.well_formed(),
            ensures
                property_offered(host, id, property, *value, *facts, *doc, offered),
            { offer_property(&host, id, property, value, facts, doc) };
        let r = self.phased_offer(open, id, phase, build);
        proof {
            let offers = crate::design_session::offers_of(build);
            let does = property_offers(host, id, property, *value, *facts);
            let wired = crate::design_session::wired_at(phase, r.1);
            crate::design_session::lemma_offer_follows(offers, does, wired);
            crate::design_session::lemma_phase_follows(
                crate::design_session::offer_builder(offers, wired),
                crate::design_session::offer_builder(does, wired),
                before,
                *self,
                open_before,
                *open,
                id,
                phase,
                false,
                r.0,
            );
        }
        r
    }
}

// ---------------------------------------------------------------------------
// Several layers
// ---------------------------------------------------------------------------

/// Every layer with its edit.
pub open spec fn paired(ids: Seq<NodeId>, edits: Seq<PropertyEdit>) -> Seq<(NodeId, PropertyEdit)> {
    Seq::new(edits.len(), |i: int| (ids[i], edits[i]))
}

fn pair_up(ids: &Vec<NodeId>, edits: Vec<PropertyEdit>) -> (steps: Vec<(NodeId, PropertyEdit)>)
    requires
        edits@.len() == ids@.len(),
    ensures
        steps@ == paired(ids@, edits@),
{
    let ghost wanted = edits@;
    let mut edits = edits;
    let mut steps: Vec<(NodeId, PropertyEdit)> = Vec::new();
    while edits.len() > 0
        invariant
            steps@.len() + edits@.len() == wanted.len(),
            wanted.len() == ids@.len(),
            edits@ == wanted.skip(steps@.len() as int),
            steps@ == paired(ids@, wanted).take(steps@.len() as int),
        decreases edits@.len(),
    {
        let at: usize = steps.len();
        let edit = edits.remove(0);
        steps.push((ids[at], edit));
        proof {
            assert(wanted[at as int] == edit);
            assert(edits@ =~= wanted.skip(at + 1));
            assert(steps@ =~= paired(ids@, wanted).take(at + 1));
        }
    }
    assert(steps@ =~= paired(ids@, wanted));
    steps
}

/// What an edit of a property of several layers offers.
pub open spec fn targeted_offered<H: Fn(&Doc, HostEdit) -> Vec<Operation>>(
    host: H,
    ids: Seq<NodeId>,
    property: DesignProperty,
    value: DesignValue,
    facts: TargetFacts,
    seen: Doc,
    offered: Option<Vec<Operation>>,
) -> bool {
    exists|edit: Option<TargetedEdit>| #[trigger]
        crate::design_targets::targeted_outcome(seen, ids, property, value, facts, edit) && (
        match edit {
            Some(TargetedEdit::Moved(built)) => offered == Some(built),
            Some(TargetedEdit::Each(edits)) => offered matches Some(operations)
                && crate::design_host::all_realized(
                host,
                seen,
                paired(ids, edits@),
                operations@,
            ),
            None => offered is None,
        })
}

pub(crate) fn offer_targeted<H: Fn(&Doc, HostEdit) -> Vec<Operation>>(
    host: &H,
    ids: &Vec<NodeId>,
    property: DesignProperty,
    value: &DesignValue,
    facts: &TargetFacts,
    doc: &Doc,
) -> (offered: Option<Vec<Operation>>)
    requires
        forall|edit: HostEdit| #[trigger] host.requires((doc, edit)),
    ensures
        targeted_offered(*host, ids@, property, *value, *facts, *doc, offered),
{
    let edit = targeted_property_operations(doc, ids, property, value, facts);
    assert(crate::design_targets::targeted_outcome(*doc, ids@, property, *value, *facts, edit));
    match edit {
        Some(TargetedEdit::Moved(operations)) => Some(operations),
        Some(TargetedEdit::Each(edits)) => {
            let steps = pair_up(ids, edits);
            Some(realize_all(host, doc, steps))
        },
        None => None,
    }
}

/// The edits that turn layers to given degrees.
pub open spec fn turns(wanted: Seq<(NodeId, Scalar)>) -> Seq<(NodeId, PropertyEdit)> {
    Seq::new(
        wanted.len(),
        |i: int|
            (
                wanted[i].0,
                PropertyEdit::Field {
                    field: crate::design_properties::InspectorField::Rotation,
                    number: crate::design_properties::FieldNumber::Plain(wanted[i].1),
                },
            ),
    )
}

pub(crate) fn build_turn<H: Fn(&Doc, HostEdit) -> Vec<Operation>>(
    host: &H,
    ids: &Vec<NodeId>,
    degrees: &Vec<Option<Scalar>>,
    doc: &Doc,
) -> (operations: Vec<Operation>)
    requires
        forall|edit: HostEdit| #[trigger] host.requires((doc, edit)),
    ensures
        crate::design_host::all_realized(
            *host,
            *doc,
            turns(crate::design_targets::turned(ids@, degrees@)),
            operations@,
        ),
{
    let wanted = rotate_clockwise_operations(ids, degrees);
    let mut steps: Vec<(NodeId, PropertyEdit)> = Vec::new();
    let mut i: usize = 0;
    while i < wanted.len()
        invariant
            i <= wanted@.len(),
            steps@ == turns(wanted@).take(i as int),
        decreases wanted@.len() - i,
    {
        let (id, degrees) = wanted[i];
        steps.push(
            (
                id,
                PropertyEdit::Field {
                    field: crate::design_properties::InspectorField::Rotation,
                    number: crate::design_properties::FieldNumber::Plain(degrees),
                },
            ),
        );
        assert(steps@ =~= turns(wanted@).take(i + 1));
        i = i + 1;
    }
    assert(steps@ =~= turns(wanted@));
    realize_all(host, doc, steps)
}

pub(crate) fn offer_arranged<H: Fn(&Doc, HostEdit) -> Vec<Operation>>(
    host: H,
    ids: &Vec<NodeId>,
    operation: ArrangeOperation,
    spans: Option<CenterSpans>,
    doc: &Doc,
) -> (offered: Option<Vec<Operation>>)
    requires
        doc.well_formed(),
        forall|seen: &Doc, edit: HostEdit|
            seen.well_formed() ==> #[trigger] host.requires((seen, edit)),
    ensures
        crate::design_targets::arranged(
            *doc,
            crate::design_targets::arrange_plan_of(operation, ids@.len(), spans),
            host,
            offered,
        ),
{
    arrange_operations(doc, ids, operation, spans, host)
}

// ---------------------------------------------------------------------------
// Commands that give up the gesture under way
// ---------------------------------------------------------------------------

/// Only the open document of the panel may have changed.
pub open spec fn same_but_open(before: FantaDesignPanel, after: FantaDesignPanel) -> bool {
    after == (FantaDesignPanel { open: after.open, ..before })
}

/// All that is under way is given up, and nothing else has changed.
pub open spec fn settled(
    before: DesignAdapter,
    after: DesignAdapter,
    panel_before: FantaDesignPanel,
    panel_after: FantaDesignPanel,
) -> bool {
    &&& crate::design_session::gave_up(before, after)
    &&& same_but_open(panel_before, panel_after)
    &&& crate::design_session::open_restored(
        panel_before.open,
        panel_after.open,
        crate::design_session::any_snapshot(before.session),
    )
    &&& panel_after.valid()
}

/// The command leaves the gesture under way alone, since it changes nothing that
/// the document holds.
pub open spec fn leaves_gesture(command: HeaderCommand) -> bool {
    command is SelectMatchingLayers || command is EditObject || command is Unsupported
}

/// A command of the header is carried out on the document without the gesture
/// that was under way.
pub open spec fn header_after_gesture(
    before: DesignAdapter,
    after: DesignAdapter,
    panel_before: FantaDesignPanel,
    panel_after: FantaDesignPanel,
    ids: Seq<NodeId>,
    command: HeaderCommand,
    page: Option<NodeId>,
    facts: HeaderFacts,
    effect: HeaderEffect,
) -> bool {
    exists|rest: FantaDesignPanel| #[trigger]
        settled(before, after, panel_before, rest) && rest.open is Some
            && crate::design_header::command_effect(
            rest,
            panel_after,
            rest.open->0,
            ids,
            command,
            page,
            facts,
            effect,
        )
}

/// What a command of the header does. One that is not offered, or is meant for
/// what is not selected any more, is rejected.
pub open spec fn header_outcome_of(
    before: DesignAdapter,
    after: DesignAdapter,
    panel_before: FantaDesignPanel,
    panel_after: FantaDesignPanel,
    target: DesignTarget,
    command: HeaderCommand,
    page: Option<NodeId>,
    facts: HeaderFacts,
    effect: HeaderEffect,
) -> bool {
    let rejected = after == before && panel_after == panel_before && effect
        == HeaderEffect::Rejected;
    match crate::design_targets::current_target(panel_before, target) {
        None => rejected,
        Some(ids) => {
            let open = panel_before.open->0;
            exists|header: Option<SelectionHeader>| #[trigger]
                crate::design_header::header_outcome(
                    open.doc,
                    ids,
                    page,
                    open.editable,
                    facts.actions,
                    header,
                ) && (if !(header matches Some(header) && crate::design_header::offers_command(
                    header,
                    command,
                )) {
                    rejected
                } else if leaves_gesture(command) {
                    after == before && crate::design_header::command_effect(
                        panel_before,
                        panel_after,
                        open,
                        ids,
                        command,
                        page,
                        facts,
                        effect,
                    )
                } else {
                    header_after_gesture(
                        before,
                        after,
                        panel_before,
                        panel_after,
                        ids,
                        command,
                        page,
                        facts,
                        effect,
                    )
                })
        },
    }
}

/// What adding a layout to a target does.
pub open spec fn layout_outcome_of(
    before: DesignAdapter,
    after: DesignAdapter,
    panel_before: FantaDesignPanel,
    panel_after: FantaDesignPanel,
    target: DesignTarget,
    facts: AddLayoutFacts,
    change: DocChange,
) -> bool {
    match crate::design_targets::current_target(panel_before, target) {
        Some(ids) => if ids.len() == 0 {
            after == before && panel_after == panel_before && change is Unchanged
        } else {
            exists|rest: FantaDesignPanel, built: Result<LayerEdit, LayerError>|
                settled(before, after, panel_before, rest)
                    && #[trigger] crate::design_targets::layout_built(rest, ids, facts, built)
                    && crate::panel::command_outcome(
                    rest,
                    panel_after,
                    "Add auto layout"@,
                    built,
                    change,
                )
        },
        None => after == before && panel_after == panel_before && change is Unchanged,
    }
}

/// What a command of the layers does once the gesture under way is given up.
pub open spec fn command_after_gesture<F: FnOnce(&Doc) -> Result<LayerEdit, LayerError>>(
    before: DesignAdapter,
    after: DesignAdapter,
    panel_before: FantaDesignPanel,
    panel_after: FantaDesignPanel,
    label: Seq<char>,
    build: F,
    change: DocChange,
) -> bool {
    exists|rest: FantaDesignPanel| #[trigger]
        settled(before, after, panel_before, rest) && (match rest.open {
            None => crate::panel::command_without_document(rest, panel_after, label, change),
            Some(open) => exists|built: Result<LayerEdit, LayerError>| #[trigger]
                crate::panel::may_build_edit(build, open, built) && crate::panel::command_outcome(
                    rest,
                    panel_after,
                    label,
                    built,
                    change,
                ),
        })
}

/// What a choice does. A command gives up the gesture under way first.
pub open spec fn choice_after_gesture(
    before: DesignAdapter,
    after: DesignAdapter,
    panel_before: FantaDesignPanel,
    panel_after: FantaDesignPanel,
    id: NodeId,
    choice: Choice,
    facts: ContextFacts,
    effect: ContextEffect,
) -> bool {
    if crate::layer_context_menu::is_command(choice) {
        exists|rest: FantaDesignPanel| #[trigger]
            settled(before, after, panel_before, rest)
                && crate::layer_context_menu::choice_outcome(
                rest,
                panel_after,
                id,
                choice,
                facts,
                effect,
            )
    } else {
        after == before && crate::layer_context_menu::choice_outcome(
            panel_before,
            panel_after,
            id,
            choice,
            facts,
            effect,
        )
    }
}

/// What activating a choice of the open picker does.
pub open spec fn activation_after_gesture(
    before: DesignAdapter,
    after: DesignAdapter,
    panel_before: FantaDesignPanel,
    panel_after: FantaDesignPanel,
    choice: Choice,
    fields: Option<CropWindow>,
    facts: ContextFacts,
    effect: ContextEffect,
) -> bool {
    exists|closed: FantaDesignPanel, chosen: Option<(NodeId, Choice)>| #[trigger]
        crate::layer_context_menu::taken_choice(panel_before, closed, choice, fields, chosen) && (
        match chosen {
            Some((id, chosen)) => choice_after_gesture(
                before,
                after,
                closed,
                panel_after,
                id,
                chosen,
                facts,
                effect,
            ),
            None => after == before && panel_after == closed && effect == ContextEffect::Done(
                DocChange::Unchanged,
            ),
        })
}

/// Putting a snapshot back changes no layer's children.
proof fn lemma_children_kept(
    before: Doc,
    after: Doc,
    snapshot: Option<crate::design_session::NodeSnapshot>,
    id: NodeId,
)
    requires
        before.well_formed(),
        after.well_formed(),
        after.content() == crate::design_session::restored_if(before.content(), snapshot),
    ensures
        crate::scene::children(after.nodes@, Some(id)).len() == crate::scene::children(
            before.nodes@,
            Some(id),
        ).len(),
{
    crate::content_walk::lemma_children_counted(before, id);
    crate::content_walk::lemma_children_counted(after, id);
    let a = before.content();
    let b = after.content();
    let first = Set::new(
        |child: NodeId| a.nodes.dom().contains(child) && a.nodes[child].parent == Some(id),
    );
    let second = Set::new(
        |child: NodeId| b.nodes.dom().contains(child) && b.nodes[child].parent == Some(id),
    );
    assert(first =~= second);
}

impl DesignAdapter {
    /// Gives up all that is under way on the panel's document.
    pub fn settle(&mut self, panel: &mut FantaDesignPanel) -> (ended: bool)
        requires
            old(panel).valid(),
        ensures
            settled(*old(self), *final(self), *old(panel), *final(panel)),
            ended == old(self).session is Some,
    {
        self.finish_edits(&mut panel.open)
    }

    /// Carries out a command of the layers, once the gesture under way is given
    /// up.
    pub fn run_layer_command<F: FnOnce(&Doc) -> Result<LayerEdit, LayerError>>(
        &mut self,
        panel: &mut FantaDesignPanel,
        label: &str,
        build: F,
    ) -> (change: DocChange)
        requires
            old(panel).valid(),
            forall|doc: &Doc| doc.well_formed() ==> #[trigger] build.requires((doc,)),
        ensures
            final(panel).valid(),
            command_after_gesture(
                *old(self),
                *final(self),
                *old(panel),
                *final(panel),
                label@,
                build,
                change,
            ),
    {
        let ghost before = *self;
        let ghost panel_before = *panel;
        let _ended = self.settle(panel);
        let ghost rest = *panel;
        assert(settled(before, *self, panel_before, rest));
        panel.apply_layer_command_select(label, build)
    }

    /// Carries out a choice of a picker; a command gives up the gesture under way
    /// first.
    pub fn run_choice(
        &mut self,
        panel: &mut FantaDesignPanel,
        id: NodeId,
        choice: Choice,
        facts: &ContextFacts,
    ) -> (effect: ContextEffect)
        requires
            old(panel).valid(),
        ensures
            final(panel).valid(),
            choice_after_gesture(
                *old(self),
                *final(self),
                *old(panel),
                *final(panel),
                id,
                choice,
                *facts,
                effect,
            ),
    {
        let ghost before = *self;
        let ghost panel_before = *panel;
        let changes = match choice {
            Choice::CropRectangle(_) => true,
            Choice::Crop(_) => true,
            Choice::ToggleWrap => true,
            Choice::Page(_) => true,
            Choice::Layout(_) => true,
            Choice::PasteProperties => true,
            _ => false,
        };
        if changes {
            let _ended = self.settle(panel);
            assert(settled(before, *self, panel_before, *panel));
        }
        panel.run_context_choice(id, choice, facts)
    }

    /// Activates a choice of the open picker.
    pub fn activate(
        &mut self,
        panel: &mut FantaDesignPanel,
        choice: Choice,
        fields: Option<CropWindow>,
        facts: &ContextFacts,
    ) -> (effect: ContextEffect)
        requires
            old(panel).valid(),
        ensures
            final(panel).valid(),
            activation_after_gesture(
                *old(self),
                *final(self),
                *old(panel),
                *final(panel),
                choice,
                fields,
                *facts,
                effect,
            ),
    {
        let ghost panel_before = *panel;
        let chosen = panel.take_choice(choice, fields);
        assert(crate::layer_context_menu::taken_choice(
            panel_before,
            *panel,
            choice,
            fields,
            chosen,
        ));
        match chosen {
            Some((id, chosen)) => self.run_choice(panel, id, chosen, facts),
            None => ContextEffect::Done(DocChange::Unchanged),
        }
    }

    /// Pastes copied layers in the place of a layer, once the gesture under way is
    /// given up.
    pub fn paste_to_replace(
        &mut self,
        panel: &mut FantaDesignPanel,
        pasted: Option<Result<Vec<Operation>, LayerError>>,
    ) -> (change: DocChange)
        requires
            old(panel).valid(),
        ensures
            final(panel).valid(),
            exists|rest: FantaDesignPanel| #[trigger]
                settled(*old(self), *final(self), *old(panel), rest)
                    && crate::layer_context_menu::paste_outcome(
                    rest,
                    *final(panel),
                    pasted,
                    change,
                ),
    {
        let ghost before = *self;
        let ghost panel_before = *panel;
        let _ended = self.settle(panel);
        assert(settled(before, *self, panel_before, *panel));
        panel.paste_layer_to_replace(pasted)
    }

    /// Makes a layer the project's thumbnail, once the gesture under way is given
    /// up.
    pub fn set_thumbnail(
        &mut self,
        panel: &mut FantaDesignPanel,
        id: NodeId,
        size: Option<Size>,
    ) -> (change: DocChange)
        requires
            old(panel).valid(),
        ensures
            final(panel).valid(),
            exists|rest: FantaDesignPanel| #[trigger]
                settled(*old(self), *final(self), *old(panel), rest)
                    && crate::layer_context_menu::thumbnail_outcome(
                    rest,
                    *final(panel),
                    id,
                    size,
                    change,
                ),
    {
        let ghost before = *self;
        let ghost panel_before = *panel;
        let _ended = self.settle(panel);
        assert(settled(before, *self, panel_before, *panel));
        panel.set_layer_thumbnail(id, size)
    }

    /// Asks for a file that replaces the media of a layer, once the gesture under
    /// way is given up.
    pub fn ask_for_media(&mut self, panel: &mut FantaDesignPanel, id: NodeId) -> (prompt: Option<
        (DocId, MediaSlot),
    >)
        requires
            old(panel).valid(),
        ensures
            settled(*old(self), *final(self), *old(panel), *final(panel)),
            prompt == crate::layer_context_menu::prompt_for(*final(panel), id),
    {
        let _ended = self.settle(panel);
        panel.media_prompt(id)
    }

    /// Carries out a command of the header, where its target is still what is
    /// selected and the header offers it. A command that changes the document
    /// gives up the gesture under way first.
    pub fn header_command(
        &mut self,
        panel: &mut FantaDesignPanel,
        target: &DesignTarget,
        command: HeaderCommand,
        page: Option<NodeId>,
        facts: &HeaderFacts,
    ) -> (effect: HeaderEffect)
        requires
            old(panel).valid(),
            crate::design_header::header_measured(*old(panel), *facts),
        ensures
            final(panel).valid(),
            header_outcome_of(
                *old(self),
                *final(self),
                *old(panel),
                *final(panel),
                *target,
                command,
                page,
                *facts,
                effect,
            ),
    {
        let ghost before = *self;
        let ghost panel_before = *panel;
        let ids = match panel.offered_ids(target, command, page, facts) {
            Some(ids) => ids,
            None => {
                return HeaderEffect::Rejected;
            },
        };
        let stays = match command {
            HeaderCommand::SelectMatchingLayers => true,
            HeaderCommand::EditObject => true,
            HeaderCommand::Unsupported => true,
            _ => false,
        };
        if !stays {
            let _ended = self.settle(panel);
            proof {
                lemma_children_kept(
                    panel_before.open->0.doc,
                    panel.open->0.doc,
                    crate::design_session::any_snapshot(before.session),
                    ids@[0],
                );
            }
            assert(settled(before, *self, panel_before, *panel));
        }
        panel.run_offered_command(&ids, command, page, facts)
    }

    /// Adds a layout to the target, where it is still what is selected, once the
    /// gesture under way is given up.
    pub fn add_layout(
        &mut self,
        panel: &mut FantaDesignPanel,
        target: &DesignTarget,
        facts: &AddLayoutFacts,
    ) -> (change: DocChange)
        requires
            old(panel).valid(),
        ensures
            final(panel).valid(),
            layout_outcome_of(
                *old(self),
                *final(self),
                *old(panel),
                *final(panel),
                *target,
                *facts,
                change,
            ),
    {
        let ghost before = *self;
        let ghost panel_before = *panel;
        let meant = match panel.target_ids(target) {
            Some(ids) => ids.len() > 0,
            None => false,
        };
        if !meant {
            return DocChange::Unchanged;
        }
        let _ended = self.settle(panel);
        let ghost rest = *panel;
        assert(settled(before, *self, panel_before, rest));
        panel.add_auto_layout(target, facts)
    }
}

} // verus!
