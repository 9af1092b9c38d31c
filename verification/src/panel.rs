//! The panel's state that commands work on: the open document, whether it may
//! be edited, and what is shown to the user.

use vstd::prelude::*;
use vstd::string::*;

use crate::document::Doc;
use crate::ids::NodeId;
use crate::layer_context_menu::ContextPicker;
use crate::layer_errors::LayerError;
use crate::operations::Operation;

verus! {

/// Whether an edit changed what the document holds.
#[derive(Clone, Copy, Debug, PartialEq, Eq, Structural)]
pub enum DocChange {
    Content,
    Unchanged,
}

/// A step that can be undone.
#[derive(Debug, PartialEq)]
pub struct Step {
    /// The name that the step was given; one without is called after its first
    /// operation.
    pub name: Option<String>,
    pub operations: Vec<Operation>,
}

#[derive(Debug, PartialEq)]
pub struct OpenDocument {
    pub doc: Doc,
    pub editable: bool,
    /// The steps that can be undone, the newest last.
    pub history: Vec<Step>,
}

/// The name of a step and what it carried out.
pub open spec fn step_of(step: Step) -> (Option<Seq<char>>, Seq<Operation>) {
    let name = match step.name {
        Some(name) => Some(name@),
        None => None,
    };
    (name, step.operations@)
}

/// The names and the operations of every step.
pub open spec fn steps_of(history: Seq<Step>) -> Seq<(Option<Seq<char>>, Seq<Operation>)> {
    history.map_values(|step: Step| step_of(step))
}

/// The steps with one more behind them; no operations are no step.
pub open spec fn one_more(
    steps: Seq<(Option<Seq<char>>, Seq<Operation>)>,
    name: Option<Seq<char>>,
    operations: Seq<Operation>,
) -> Seq<(Option<Seq<char>>, Seq<Operation>)> {
    if operations.len() == 0 {
        steps
    } else {
        steps.push((name, operations))
    }
}

/// The operations are one more step to undo, under the name.
pub open spec fn recorded(
    before: OpenDocument,
    after: OpenDocument,
    name: Option<Seq<char>>,
    operations: Seq<Operation>,
) -> bool {
    steps_of(after.history@) == one_more(steps_of(before.history@), name, operations)
}

/// Records operations that were carried out as one step.
pub(crate) fn record(history: &mut Vec<Step>, name: Option<&str>, operations: Vec<Operation>)
    ensures
        steps_of(final(history)@) == one_more(
            steps_of(old(history)@),
            (match name {
                Some(name) => Some(name@),
                None => None,
            }),
            operations@,
        ),
{
    if operations.len() > 0 {
        let name = match name {
            Some(name) => Some(name.to_owned()),
            None => None,
        };
        let step = Step { name, operations };
        let ghost said = step_of(step);
        history.push(step);
        assert(steps_of(history@) =~= steps_of(old(history)@).push(said));
    }
}

/// An item in view that holds no document.
#[derive(Clone, Copy, Debug, PartialEq, Eq, Structural)]
pub struct EmptyItem {
    pub editable: bool,
}

#[derive(Debug, PartialEq)]
pub struct FantaDesignPanel {
    pub open: Option<OpenDocument>,
    /// The item in view where no document is open; none where no view is active.
    pub empty: Option<EmptyItem>,
    pub context_picker: Option<ContextPicker>,
    /// Notices on the canvas, the newest last.
    pub notices: Vec<String>,
}

/// Operations of a command, and the selection it leaves where it names one.
#[derive(Debug, PartialEq)]
pub struct LayerEdit {
    pub operations: Vec<Operation>,
    pub selection: Option<Vec<NodeId>>,
}

/// A notice: the command's label and what went wrong.
pub open spec fn notice_text(label: Seq<char>, error: LayerError) -> Seq<char> {
    label + ": "@ + crate::layer_errors::error_text(error)
}

/// The ids of a list that the document holds.
pub open spec fn still_there(doc: Doc, ids: Seq<NodeId>) -> Seq<NodeId>
    decreases ids.len(),
{
    if ids.len() == 0 {
        Seq::empty()
    } else {
        let rest = still_there(doc, ids.drop_last());
        if crate::scene::find(doc.nodes@, ids.last()) is Some {
            rest.push(ids.last())
        } else {
            rest
        }
    }
}

/// The texts of a list of strings.
pub open spec fn texts_of(list: Seq<String>) -> Seq<Seq<char>> {
    list.map_values(|text: String| text@)
}

/// Nothing but a notice about an error.
pub open spec fn only_noticed(
    before: FantaDesignPanel,
    after: FantaDesignPanel,
    label: Seq<char>,
    error: LayerError,
) -> bool {
    &&& after.open == before.open
    &&& after.empty == before.empty
    &&& after.context_picker == before.context_picker
    &&& texts_of(after.notices@) == texts_of(before.notices@).push(notice_text(label, error))
}

/// What a command does where no document is open: an item that may not be edited
/// says so.
pub open spec fn command_without_document(
    before: FantaDesignPanel,
    after: FantaDesignPanel,
    label: Seq<char>,
    change: DocChange,
) -> bool {
    &&& change is Unchanged
    &&& if before.empty matches Some(item) && !item.editable {
        only_noticed(before, after, label, LayerError::ReadOnly)
    } else {
        after == before
    }
}

/// What carrying out a command on the open document does. The command is given
/// by what it builds. A document that may not be edited stays as it is; so does
/// one that does not take all of the operations. What is carried out is one step
/// under the command's name. The selection becomes the one
/// that the command names, or else keeps what is still there.
pub open spec fn command_outcome(
    before: FantaDesignPanel,
    after: FantaDesignPanel,
    label: Seq<char>,
    built: Result<LayerEdit, LayerError>,
    change: DocChange,
) -> bool {
    match before.open {
        None => command_without_document(before, after, label, change),
        Some(open) => if !open.editable {
            only_noticed(before, after, label, LayerError::ReadOnly) && change is Unchanged
        } else {
            match built {
                Err(error) => only_noticed(before, after, label, error) && change is Unchanged,
                Ok(edit) => edit_outcome(before, after, open, label, edit, change),
            }
        },
    }
}

/// What an edit of a document that may be edited does.
pub open spec fn edit_outcome(
    before: FantaDesignPanel,
    after: FantaDesignPanel,
    open: OpenDocument,
    label: Seq<char>,
    edit: LayerEdit,
    change: DocChange,
) -> bool {
    if edit.operations@.len() == 0 {
        after == before && change is Unchanged
    } else if !crate::operations::carried(open.doc.content(), edit.operations@) {
        only_noticed(before, after, label, LayerError::NotApplied) && change is Unchanged
    } else {
        &&& change is Content
        &&& after.empty == before.empty
        &&& after.context_picker == before.context_picker
        &&& after.notices == before.notices
        &&& after.open matches Some(now) && {
            &&& now.editable
            &&& recorded(open, now, Some(label), edit.operations@)
            &&& now.doc.content() == crate::operations::all_applied(
                open.doc.content(),
                edit.operations@,
            )
            &&& now.doc.id == open.doc.id
            &&& now.doc.pages@ == open.doc.pages@
            &&& now.doc.active_page == open.doc.active_page
            &&& now.doc.selection@ == (match edit.selection {
                Some(selection) => selection@,
                None => still_there(now.doc, open.doc.selection@),
            })
        }
    }
}

pub(crate) fn keep_there(doc: &Doc, ids: &Vec<NodeId>) -> (kept: Vec<NodeId>)
    ensures
        kept@ == still_there(*doc, ids@),
{
    let mut kept: Vec<NodeId> = Vec::new();
    let mut i: usize = 0;
    assert(ids@.take(0) =~= Seq::<NodeId>::empty());
    while i < ids.len()
        invariant
            i <= ids@.len(),
            kept@ == still_there(*doc, ids@.take(i as int)),
        decreases ids@.len() - i,
    {
        proof {
            assert(ids@.take(i + 1).drop_last() =~= ids@.take(i as int));
            assert(ids@.take(i + 1).last() == ids@[i as int]);
        }
        if doc.contains(ids[i]) {
            kept.push(ids[i]);
        }
        i = i + 1;
    }
    assert(ids@.take(ids@.len() as int) =~= ids@);
    kept
}

impl FantaDesignPanel {
    /// The open document is in order.
    pub open spec fn valid(self) -> bool {
        self.open matches Some(open) ==> open.doc.well_formed()
    }

    pub fn show_notice(&mut self, text: String)
        ensures
            final(self).open == old(self).open,
            final(self).empty == old(self).empty,
            final(self).context_picker == old(self).context_picker,
            texts_of(final(self).notices@) == texts_of(old(self).notices@).push(text@),
    {
        self.notices.push(text);
        assert(texts_of(self.notices@) =~= texts_of(old(self).notices@).push(text@));
    }

    pub(crate) fn show_error(&mut self, label: &str, error: LayerError)
        ensures
            only_noticed(*old(self), *final(self), label@, error),
    {
        let mut text = label.to_owned();
        text.append(": ");
        let reason = error.message();
        text.append(reason.as_str());
        self.show_notice(text);
    }

    /// Says that the item in view may not be edited, where it holds no document
    /// and that is so.
    pub(crate) fn refuse_without_document(&mut self, label: &str) -> (change: DocChange)
        ensures
            command_without_document(*old(self), *final(self), label@, change),
    {
        if let Some(item) = self.empty {
            if !item.editable {
                self.show_error(label, LayerError::ReadOnly);
            }
        }
        DocChange::Unchanged
    }

    /// Carries out what a command has built.
    pub fn run_layer_edit(&mut self, label: &str, built: Result<LayerEdit, LayerError>) -> (change:
        DocChange)
        requires
            old(self).valid(),
        ensures
            final(self).valid(),
            command_outcome(*old(self), *final(self), label@, built, change),
    {
        let result: Result<(Doc, Vec<Operation>), LayerError> = match &self.open {
            None => {
                return self.refuse_without_document(label);
            },
            Some(open) => if !open.editable {
                Err(LayerError::ReadOnly)
            } else {
                match built {
                    Err(error) => Err(error),
                    Ok(edit) => {
                        if edit.operations.len() == 0 {
                            return DocChange::Unchanged;
                        }
                        let mut scratch = open.doc.copy();
                        proof {
                            crate::layer_context_ops::lemma_same_content(scratch, open.doc);
                        }
                        match scratch.apply_all(&edit.operations) {
                            Err(_) => Err(LayerError::NotApplied),
                            Ok(_) => {
                                let selection = match edit.selection {
                                    Some(selection) => selection,
                                    None => keep_there(&scratch, &scratch.selection),
                                };
                                let ghost before = scratch;
                                scratch.selection = selection;
                                proof {
                                    lemma_still_there_same(before, scratch, before.selection@);
                                    assert(scratch.content() == before.content());
                                }
                                Ok((scratch, edit.operations))
                            },
                        }
                    },
                }
            },
        };
        match result {
            Err(error) => {
                self.show_error(label, error);
                DocChange::Unchanged
            },
            Ok((doc, step)) => {
                if let Some(open) = self.open.take() {
                    let mut history = open.history;
                    record(&mut history, Some(label), step);
                    self.open = Some(OpenDocument { doc, editable: true, history });
                }
                DocChange::Content
            },
        }
    }

    /// Builds a command on the open document and carries it out.
    pub fn apply_layer_command<F: FnOnce(&Doc) -> Result<Vec<Operation>, LayerError>>(
        &mut self,
        label: &str,
        build: F,
    ) -> (change: DocChange)
        requires
            old(self).valid(),
            forall|doc: &Doc| doc.well_formed() ==> #[trigger] build.requires((doc,)),
        ensures
            final(self).valid(),
            match old(self).open {
                None => command_without_document(*old(self), *final(self), label@, change),
                Some(open) => exists|built: Result<Vec<Operation>, LayerError>| #[trigger]
                    may_build(build, open, built) && command_outcome(
                        *old(self),
                        *final(self),
                        label@,
                        unselecting(built),
                        change,
                    ),
            },
    {
        let built: Result<Vec<Operation>, LayerError> = match &self.open {
            None => {
                return self.refuse_without_document(label);
            },
            Some(open) => if open.editable {
                build(&open.doc)
            } else {
                Err(LayerError::ReadOnly)
            },
        };
        assert(may_build(build, old(self).open->0, built));
        let edit = match built {
            Err(error) => Err(error),
            Ok(operations) => Ok(LayerEdit { operations, selection: None }),
        };
        assert(edit == unselecting(built));
        self.run_layer_edit(label, edit)
    }

    /// Builds a command that may name the selection it leaves, and carries it
    /// out.
    pub fn apply_layer_command_select<F: FnOnce(&Doc) -> Result<LayerEdit, LayerError>>(
        &mut self,
        label: &str,
        build: F,
    ) -> (change: DocChange)
        requires
            old(self).valid(),
            forall|doc: &Doc| doc.well_formed() ==> #[trigger] build.requires((doc,)),
        ensures
            final(self).valid(),
            match old(self).open {
                None => command_without_document(*old(self), *final(self), label@, change),
                Some(open) => exists|built: Result<LayerEdit, LayerError>| #[trigger]
                    may_build_edit(build, open, built) && command_outcome(
                        *old(self),
                        *final(self),
                        label@,
                        built,
                        change,
                    ),
            },
    {
        let built: Result<LayerEdit, LayerError> = match &self.open {
            None => {
                return self.refuse_without_document(label);
            },
            Some(open) => if open.editable {
                build(&open.doc)
            } else {
                Err(LayerError::ReadOnly)
            },
        };
        assert(may_build_edit(build, old(self).open->0, built));
        self.run_layer_edit(label, built)
    }
}

/// The command may build this on the open document; on one that may not be
/// edited it is not asked.
pub open spec fn may_build<F: FnOnce(&Doc) -> Result<Vec<Operation>, LayerError>>(
    build: F,
    open: OpenDocument,
    built: Result<Vec<Operation>, LayerError>,
) -> bool {
    open.editable ==> build.ensures((&open.doc,), built)
}

/// The command may build this on the open document; on one that may not be
/// edited it is not asked.
pub open spec fn may_build_edit<F: FnOnce(&Doc) -> Result<LayerEdit, LayerError>>(
    build: F,
    open: OpenDocument,
    built: Result<LayerEdit, LayerError>,
) -> bool {
    open.editable ==> build.ensures((&open.doc,), built)
}

/// An edit that names no selection.
pub open spec fn unselecting(built: Result<Vec<Operation>, LayerError>) -> Result<
    LayerEdit,
    LayerError,
> {
    match built {
        Err(error) => Err(error),
        Ok(operations) => Ok(LayerEdit { operations: operations, selection: None }),
    }
}

proof fn lemma_still_there_same(a: Doc, b: Doc, ids: Seq<NodeId>)
    requires
        a.nodes == b.nodes,
    ensures
        still_there(a, ids) == still_there(b, ids),
    decreases ids.len(),
{
    if ids.len() > 0 {
        lemma_still_there_same(a, b, ids.drop_last());
    }
}

/// A command leaves a document alone that may not be edited.
pub proof fn lemma_read_only_unchanged(
    before: FantaDesignPanel,
    after: FantaDesignPanel,
    label: Seq<char>,
    built: Result<LayerEdit, LayerError>,
    change: DocChange,
)
    requires
        command_outcome(before, after, label, built, change),
        before.open matches Some(open) && !open.editable,
    ensures
        after.open == before.open,
        change is Unchanged,
{
}

/// A command that fails, at whatever point, changes nothing of the document.
pub proof fn lemma_all_or_nothing(
    before: FantaDesignPanel,
    after: FantaDesignPanel,
    label: Seq<char>,
    built: Result<LayerEdit, LayerError>,
    change: DocChange,
)
    requires
        command_outcome(before, after, label, built, change),
    ensures
        change is Unchanged ==> after.open == before.open,
        change is Content ==> before.open is Some && after.open is Some && built is Ok
            && after.open->0.doc.content() == crate::operations::all_applied(
            before.open->0.doc.content(),
            built->Ok_0.operations@,
        ),
{
}

proof fn lemma_still_there_found(doc: Doc, ids: Seq<NodeId>)
    ensures
        forall|i: int|
            0 <= i < still_there(doc, ids).len() ==> crate::scene::find(
                doc.nodes@,
                #[trigger] still_there(doc, ids)[i],
            ) is Some,
    decreases ids.len(),
{
    if ids.len() > 0 {
        lemma_still_there_found(doc, ids.drop_last());
        let rest = still_there(doc, ids.drop_last());
        let all = still_there(doc, ids);
        assert forall|i: int| 0 <= i < all.len() implies crate::scene::find(
            doc.nodes@,
            #[trigger] all[i],
        ) is Some by {
            if i < rest.len() {
                assert(all[i] == rest[i]);
            }
        }
    }
}

/// After a command that names no selection, only layers that are there are
/// selected.
pub proof fn lemma_selection_exists(
    before: FantaDesignPanel,
    after: FantaDesignPanel,
    label: Seq<char>,
    built: Result<LayerEdit, LayerError>,
    change: DocChange,
)
    requires
        command_outcome(before, after, label, built, change),
        change is Content,
        built matches Ok(edit) && edit.selection is None,
    ensures
        after.open matches Some(now) && forall|i: int|
            0 <= i < now.doc.selection@.len() ==> crate::scene::find(
                now.doc.nodes@,
                #[trigger] now.doc.selection@[i],
            ) is Some,
{
    let now = after.open->0;
    lemma_still_there_found(now.doc, before.open->0.doc.selection@);
}

} // verus!
