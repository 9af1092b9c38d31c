//! The layer menu's pickers: what they offer, and what a choice does.

use serde_json::Value;
use vstd::prelude::*;
use vstd::string::*;

use crate::document::{CanvasNode, Doc, LayoutMode, NodeData, Transform};
use crate::ids::{AssetId, DocId, NodeId};
use crate::layer_context_ops::{
    auto_layout, created_roots, crop, crop_rectangle, editable, paste_properties, toggle_wrap,
    LayerAction, LayoutFacts,
};
use crate::layer_errors::LayerError;
use crate::layer_media::{media_slot, replace_media, MediaSlot, NewMedia};
use crate::layer_moves::move_to_page;
use crate::meta::{copy_meta, has_member, insert_flag, object_or_empty, remove_member};
use crate::operations::Operation;
use crate::paint::{CropWindow, Size};
use crate::panel::{record, DocChange, FantaDesignPanel, LayerEdit};
use crate::scalar::Scalar;

verus! {

// Bit patterns of the aspect ratios on offer.

/// 4:3.
pub const LANDSCAPE: u64 = 0x3ff5_5555_5555_5555;

/// 16:9.
pub const WIDESCREEN: u64 = 0x3ffc_71c7_1c71_c71c;

/// 3:4.
pub const PORTRAIT: u64 = 0x3fe8_0000_0000_0000;

/// 9:16.
pub const TALL_PORTRAIT: u64 = 0x3fe2_0000_0000_0000;

#[derive(Clone, Copy, Debug, PartialEq, Eq, Structural)]
pub enum Choice {
    Page(NodeId),
    Layout(Option<LayoutMode>),
    Crop(Option<Scalar>),
    CopySvg,
    CopyPng,
    CopyProperties,
    PasteProperties,
    CustomCrop,
    ApplyCrop,
    CropRectangle(CropWindow),
    ToggleWrap,
}

#[derive(Debug, PartialEq)]
pub struct ContextChoice {
    pub label: String,
    pub choice: Choice,
}

#[derive(Debug, PartialEq)]
pub struct ContextPicker {
    pub document: DocId,
    pub node: NodeId,
    pub choices: Vec<ContextChoice>,
    /// The crop that the input fields start from, in fractions of the picture.
    pub crop_fields: Option<CropWindow>,
}

/// The look of a layer on the clipboard.
#[derive(Debug, PartialEq)]
pub struct StyleClipboard {
    pub document: DocId,
    pub node: CanvasNode,
}

/// The choices as pairs of label and meaning.
pub open spec fn shown_choices(choices: Seq<ContextChoice>) -> Seq<(Seq<char>, Choice)> {
    choices.map_values(|choice: ContextChoice| (choice.label@, choice.choice))
}

// ---------------------------------------------------------------------------
// Opening
// ---------------------------------------------------------------------------

/// The pages that a layer can move to: all but itself and those it is on.
pub open spec fn other_pages(doc: Doc, pages: Seq<NodeId>, id: NodeId) -> Seq<(Seq<char>, Choice)>
    decreases pages.len(),
{
    if pages.len() == 0 {
        Seq::empty()
    } else {
        let rest = other_pages(doc, pages.drop_last(), id);
        let page = pages.last();
        if page == id || crate::scene::is_above(doc.nodes@, page, id) {
            rest
        } else {
            match crate::scene::find(doc.nodes@, page) {
                Some(node) => rest.push((node.name@, Choice::Page(page))),
                None => rest,
            }
        }
    }
}

/// The layer is a frame with a layout.
pub open spec fn has_layout(doc: Doc, id: NodeId) -> bool {
    crate::scene::find(doc.nodes@, id) matches Some(node) && (*node.data matches NodeData::Group(
        group,
    ) && group.auto_layout is Some)
}

pub open spec fn layout_choices(with_layout: bool) -> Seq<(Seq<char>, Choice)> {
    let modes = seq![
        ("Horizontal layout"@, Choice::Layout(Some(LayoutMode::Horizontal))),
        ("Vertical layout"@, Choice::Layout(Some(LayoutMode::Vertical))),
    ];
    if with_layout {
        modes.push(("Toggle wrap"@, Choice::ToggleWrap)).push(
            ("Remove auto layout"@, Choice::Layout(None)),
        )
    } else {
        modes
    }
}

pub open spec fn crop_choices() -> Seq<(Seq<char>, Choice)> {
    seq![
        ("Custom crop…"@, Choice::CustomCrop),
        ("Square · 1:1"@, Choice::Crop(Some(Scalar::of(crate::scalar::ONE)))),
        ("Landscape · 4:3"@, Choice::Crop(Some(Scalar::of(LANDSCAPE)))),
        ("Widescreen · 16:9"@, Choice::Crop(Some(Scalar::of(WIDESCREEN)))),
        ("Portrait · 3:4"@, Choice::Crop(Some(Scalar::of(PORTRAIT)))),
        ("Portrait · 9:16"@, Choice::Crop(Some(Scalar::of(TALL_PORTRAIT)))),
        ("Reset crop"@, Choice::Crop(None)),
    ]
}

pub open spec fn copy_choices(may_paste: bool) -> Seq<(Seq<char>, Choice)> {
    let copies = seq![
        ("Copy as SVG"@, Choice::CopySvg),
        ("Copy as PNG"@, Choice::CopyPng),
        ("Copy properties"@, Choice::CopyProperties),
    ];
    if may_paste {
        copies.push(("Paste properties"@, Choice::PasteProperties))
    } else {
        copies
    }
}

/// What the picker of a command offers. Other commands have none.
pub open spec fn offered(doc: Doc, may_edit: bool, id: NodeId, action: LayerAction) -> Option<
    Seq<(Seq<char>, Choice)>,
> {
    match action {
        LayerAction::MoveToPage => Some(other_pages(doc, doc.pages@, id)),
        LayerAction::MoreLayoutOptions => Some(layout_choices(has_layout(doc, id))),
        LayerAction::CropImage => Some(crop_choices()),
        LayerAction::CopyPasteAs => Some(
            copy_choices(may_edit && crate::layer_context_ops::can_edit(doc, id)),
        ),
        _ => None,
    }
}

fn offer(choices: &mut Vec<ContextChoice>, label: &str, choice: Choice)
    ensures
        shown_choices(final(choices)@) == shown_choices(old(choices)@).push((label@, choice)),
{
    choices.push(ContextChoice { label: label.to_owned(), choice });
    assert(shown_choices(choices@) =~= shown_choices(old(choices)@).push((label@, choice)));
}

fn offer_pages(doc: &Doc, id: NodeId) -> (choices: Vec<ContextChoice>)
    ensures
        shown_choices(choices@) == other_pages(*doc, doc.pages@, id),
{
    let mut choices: Vec<ContextChoice> = Vec::new();
    let mut i: usize = 0;
    assert(doc.pages@.take(0) =~= Seq::<NodeId>::empty());
    assert(shown_choices(choices@) =~= Seq::<(Seq<char>, Choice)>::empty());
    while i < doc.pages.len()
        invariant
            i <= doc.pages@.len(),
            shown_choices(choices@) == other_pages(*doc, doc.pages@.take(i as int), id),
        decreases doc.pages@.len() - i,
    {
        let page = doc.pages[i];
        proof {
            assert(doc.pages@.take(i + 1).drop_last() =~= doc.pages@.take(i as int));
            assert(doc.pages@.take(i + 1).last() == page);
        }
        if page != id && !doc.is_ancestor(page, id) {
            if let Some(node) = doc.get(page) {
                offer(&mut choices, node.name.as_str(), Choice::Page(page));
            }
        }
        i = i + 1;
    }
    assert(doc.pages@.take(doc.pages@.len() as int) =~= doc.pages@);
    choices
}

fn offer_layouts(doc: &Doc, id: NodeId) -> (choices: Vec<ContextChoice>)
    ensures
        shown_choices(choices@) == layout_choices(has_layout(*doc, id)),
{
    let mut choices: Vec<ContextChoice> = Vec::new();
    assert(shown_choices(choices@) =~= Seq::<(Seq<char>, Choice)>::empty());
    offer(&mut choices, "Horizontal layout", Choice::Layout(Some(LayoutMode::Horizontal)));
    offer(&mut choices, "Vertical layout", Choice::Layout(Some(LayoutMode::Vertical)));
    let with_layout = match doc.get(id) {
        Some(node) => match &*node.data {
            NodeData::Group(group) => group.auto_layout.is_some(),
            _ => false,
        },
        None => false,
    };
    if with_layout {
        offer(&mut choices, "Toggle wrap", Choice::ToggleWrap);
        offer(&mut choices, "Remove auto layout", Choice::Layout(None));
    }
    assert(shown_choices(choices@) =~= layout_choices(with_layout));
    choices
}

fn offer_crops() -> (choices: Vec<ContextChoice>)
    ensures
        shown_choices(choices@) == crop_choices(),
{
    let mut choices: Vec<ContextChoice> = Vec::new();
    assert(shown_choices(choices@) =~= Seq::<(Seq<char>, Choice)>::empty());
    offer(&mut choices, "Custom crop…", Choice::CustomCrop);
    offer(&mut choices, "Square · 1:1", Choice::Crop(Some(Scalar::of(crate::scalar::ONE))));
    offer(&mut choices, "Landscape · 4:3", Choice::Crop(Some(Scalar::of(LANDSCAPE))));
    offer(&mut choices, "Widescreen · 16:9", Choice::Crop(Some(Scalar::of(WIDESCREEN))));
    offer(&mut choices, "Portrait · 3:4", Choice::Crop(Some(Scalar::of(PORTRAIT))));
    offer(&mut choices, "Portrait · 9:16", Choice::Crop(Some(Scalar::of(TALL_PORTRAIT))));
    offer(&mut choices, "Reset crop", Choice::Crop(None));
    assert(shown_choices(choices@) =~= crop_choices());
    choices
}

fn offer_copies(may_paste: bool) -> (choices: Vec<ContextChoice>)
    ensures
        shown_choices(choices@) == copy_choices(may_paste),
{
    let mut choices: Vec<ContextChoice> = Vec::new();
    assert(shown_choices(choices@) =~= Seq::<(Seq<char>, Choice)>::empty());
    offer(&mut choices, "Copy as SVG", Choice::CopySvg);
    offer(&mut choices, "Copy as PNG", Choice::CopyPng);
    offer(&mut choices, "Copy properties", Choice::CopyProperties);
    if may_paste {
        offer(&mut choices, "Paste properties", Choice::PasteProperties);
    }
    assert(shown_choices(choices@) =~= copy_choices(may_paste));
    choices
}

/// A picker with these choices and fields is open, and nothing else changed.
pub open spec fn picker_opened(
    before: FantaDesignPanel,
    after: FantaDesignPanel,
    document: DocId,
    node: NodeId,
    choices: Seq<(Seq<char>, Choice)>,
    crop_fields: Option<CropWindow>,
) -> bool {
    &&& after.open == before.open
    &&& after.empty == before.empty
    &&& after.notices == before.notices
    &&& after.context_picker matches Some(picker) && {
        &&& picker.document == document
        &&& picker.node == node
        &&& shown_choices(picker.choices@) == choices
        &&& picker.crop_fields == crop_fields
    }
}

/// Nothing but a notice.
pub open spec fn told(before: FantaDesignPanel, after: FantaDesignPanel, text: Seq<char>) -> bool {
    &&& after.open == before.open
    &&& after.empty == before.empty
    &&& after.context_picker == before.context_picker
    &&& crate::panel::texts_of(after.notices@) == crate::panel::texts_of(before.notices@).push(text)
}

// ---------------------------------------------------------------------------
// Choosing
// ---------------------------------------------------------------------------

/// What the host measures and reads for a choice.
#[derive(Debug, PartialEq)]
pub struct ContextFacts {
    pub selection_roots: Vec<NodeId>,
    /// The destination page has a transform on the canvas.
    pub page_known: bool,
    /// The transform of every target below the destination page.
    pub moved: Vec<Option<Transform>>,
    pub layout: LayoutFacts,
    /// The centered window of the chosen ratio.
    pub window: CropWindow,
    /// Neither origin plus size goes past one hundred percent.
    pub fits: bool,
    /// The window given in percent, in fractions of the picture.
    pub fractions: CropWindow,
    /// The layer's height after the crop.
    pub height: Scalar,
    /// The look that was copied last.
    pub clipboard: Option<StyleClipboard>,
}

/// What is left to the host after a choice.
#[derive(Debug, PartialEq)]
pub enum ContextEffect {
    Done(DocChange),
    /// Render the layer and put it on the clipboard, as SVG or as PNG.
    CopyRendered { node: NodeId, svg: bool },
    CopyStyle(StyleClipboard),
}

/// The label of a choice that is a command on the document.
pub open spec fn command_label(choice: Choice) -> Seq<char> {
    match choice {
        Choice::CropRectangle(_) | Choice::Crop(_) => "Crop image"@,
        Choice::ToggleWrap => "Toggle layout wrapping"@,
        Choice::Page(_) => "Move to page"@,
        Choice::Layout(_) => "Auto layout"@,
        Choice::PasteProperties => "Paste properties"@,
        _ => Seq::empty(),
    }
}

/// A choice that is a command on the document.
pub open spec fn is_command(choice: Choice) -> bool {
    choice is CropRectangle || choice is Crop || choice is ToggleWrap || choice is Page
        || choice is Layout || choice is PasteProperties
}

/// What a command builds on the document.
pub open spec fn choice_built(
    doc: Doc,
    id: NodeId,
    choice: Choice,
    facts: ContextFacts,
    r: Result<Vec<Operation>, LayerError>,
) -> bool {
    match choice {
        Choice::CropRectangle(percent) => crate::layer_context_ops::crop_rectangle_outcome(
            doc,
            id,
            percent,
            facts.fits,
            facts.fractions,
            facts.height,
            r,
        ),
        Choice::Crop(aspect) => crate::layer_context_ops::crop_outcome(
            doc,
            id,
            aspect,
            facts.window,
            facts.height,
            r,
        ),
        Choice::ToggleWrap => crate::layer_context_ops::wrap_outcome(doc, id, r),
        Choice::Page(page) => crate::layer_moves::outcome_of(r) == crate::layer_moves::move_outcome(
            doc,
            id,
            page,
            facts.selection_roots@,
            facts.page_known,
            facts.moved@,
        ),
        Choice::Layout(mode) => crate::layer_context_ops::auto_layout_outcome(
            doc,
            id,
            mode,
            facts.selection_roots@,
            facts.layout,
            r,
        ),
        Choice::PasteProperties => match facts.clipboard {
            None => r == Err::<Vec<Operation>, LayerError>(LayerError::CopyPropertiesFirst),
            Some(copied) => if copied.document != doc.id {
                r == Err::<Vec<Operation>, LayerError>(LayerError::OtherDocument)
            } else {
                crate::layer_context_ops::paste_outcome(
                    doc,
                    id,
                    copied.node,
                    facts.selection_roots@,
                    r,
                )
            },
        },
        _ => false,
    }
}

fn build_choice(doc: &Doc, id: NodeId, choice: Choice, facts: &ContextFacts) -> (r: Result<
    Vec<Operation>,
    LayerError,
>)
    requires
        doc.well_formed(),
        is_command(choice),
    ensures
        choice_built(*doc, id, choice, *facts, r),
{
    match choice {
        Choice::CropRectangle(percent) => crop_rectangle(
            doc,
            id,
            percent,
            facts.fits,
            facts.fractions,
            facts.height,
        ),
        Choice::Crop(aspect) => crop(doc, id, aspect, facts.window, facts.height),
        Choice::ToggleWrap => toggle_wrap(doc, id),
        Choice::Page(page) => move_to_page(
            doc,
            id,
            page,
            &facts.selection_roots,
            facts.page_known,
            &facts.moved,
        ),
        Choice::Layout(mode) => auto_layout(
            doc,
            id,
            mode,
            &facts.selection_roots,
            &facts.layout,
        ),
        _ => match &facts.clipboard {
            None => Err(LayerError::CopyPropertiesFirst),
            Some(copied) => {
                if copied.document.raw != doc.id.raw {
                    return Err(LayerError::OtherDocument);
                }
                paste_properties(doc, id, &copied.node, &facts.selection_roots)
            },
        },
    }
}

fn label_of(choice: Choice) -> (label: &'static str)
    requires
        is_command(choice),
    ensures
        label@ == command_label(choice),
{
    match choice {
        Choice::CropRectangle(_) | Choice::Crop(_) => "Crop image",
        Choice::ToggleWrap => "Toggle layout wrapping",
        Choice::Page(_) => "Move to page",
        Choice::Layout(_) => "Auto layout",
        _ => "Paste properties",
    }
}

/// The crop that a picture shows, the whole picture where it has none.
pub open spec fn shown_crop(doc: Doc, id: NodeId) -> Option<CropWindow> {
    match crate::scene::find(doc.nodes@, id) {
        Some(node) => match *node.data {
            NodeData::Bitmap(bitmap) => Some(
                match bitmap.crop {
                    Some(crop) => crop,
                    None => whole_picture(),
                },
            ),
            _ => None,
        },
        None => None,
    }
}

pub open spec fn whole_picture() -> CropWindow {
    CropWindow {
        x: Scalar::of(crate::scalar::ZERO),
        y: Scalar::of(crate::scalar::ZERO),
        width: Scalar::of(crate::scalar::ONE),
        height: Scalar::of(crate::scalar::ONE),
    }
}

/// What a choice does.
pub open spec fn choice_outcome(
    before: FantaDesignPanel,
    after: FantaDesignPanel,
    id: NodeId,
    choice: Choice,
    facts: ContextFacts,
    effect: ContextEffect,
) -> bool {
    match before.open {
        None => effect == ContextEffect::Done(DocChange::Unchanged) && (if is_command(choice) {
            crate::panel::command_without_document(
                before,
                after,
                command_label(choice),
                DocChange::Unchanged,
            )
        } else if choice is CopySvg || choice is CopyPng {
            crate::panel::only_noticed(before, after, "Copy"@, LayerError::DocumentClosed)
        } else {
            after == before
        }),
        Some(open) => if is_command(choice) {
            effect matches ContextEffect::Done(change) && (if !open.editable {
                crate::panel::only_noticed(
                    before,
                    after,
                    command_label(choice),
                    LayerError::ReadOnly,
                ) && change is Unchanged
            } else {
                exists|r: Result<Vec<Operation>, LayerError>| #[trigger]
                    choice_built(open.doc, id, choice, facts, r) && crate::panel::command_outcome(
                        before,
                        after,
                        command_label(choice),
                        crate::panel::unselecting(r),
                        change,
                    )
            })
        } else {
            match choice {
                Choice::CopySvg | Choice::CopyPng => after == before && effect == (
                ContextEffect::CopyRendered { node: id, svg: choice is CopySvg }),
                Choice::CopyProperties => after == before && (match crate::scene::find(
                    open.doc.nodes@,
                    id,
                ) {
                    Some(node) => effect == ContextEffect::CopyStyle(
                        StyleClipboard { document: open.doc.id, node: node },
                    ),
                    None => effect == ContextEffect::Done(DocChange::Unchanged),
                }),
                Choice::CustomCrop => effect == ContextEffect::Done(DocChange::Unchanged) && (
                match shown_crop(open.doc, id) {
                    Some(window) => picker_opened(
                        before,
                        after,
                        open.doc.id,
                        id,
                        seq![("Apply crop"@, Choice::ApplyCrop)],
                        Some(window),
                    ),
                    None => after == before,
                }),
                _ => after == before && effect == ContextEffect::Done(DocChange::Unchanged),
            }
        },
    }
}

impl FantaDesignPanel {
    /// Opens the picker of a command, or tells that it has nothing to offer.
    pub fn open_context_picker(&mut self, id: NodeId, action: LayerAction)
        ensures
            match old(self).open {
                None => *final(self) == *old(self),
                Some(open) => match offered(open.doc, open.editable, id, action) {
                    None => *final(self) == *old(self),
                    Some(choices) => if choices.len() == 0 {
                        told(*old(self), *final(self), "There are no other pages"@)
                    } else {
                        picker_opened(
                            *old(self),
                            *final(self),
                            open.doc.id,
                            id,
                            choices,
                            None,
                        )
                    },
                },
            },
    {
        let (document, choices) = match &self.open {
            None => {
                return ;
            },
            Some(open) => {
                let choices = match action {
                    LayerAction::MoveToPage => offer_pages(&open.doc, id),
                    LayerAction::MoreLayoutOptions => offer_layouts(&open.doc, id),
                    LayerAction::CropImage => offer_crops(),
                    LayerAction::CopyPasteAs => offer_copies(
                        open.editable && editable(&open.doc, id),
                    ),
                    _ => {
                        return ;
                    },
                };
                (open.doc.id, choices)
            },
        };
        assert(shown_choices(choices@).len() == choices@.len());
        if choices.len() == 0 {
            self.show_notice("There are no other pages".to_owned());
            return ;
        }
        self.context_picker = Some(
            ContextPicker { document, node: id, choices, crop_fields: None },
        );
    }

    /// Closes the picker.
    pub fn dismiss_context_picker(&mut self)
        ensures
            final(self).context_picker is None,
            final(self).open == old(self).open,
            final(self).empty == old(self).empty,
            final(self).notices == old(self).notices,
    {
        self.context_picker = None;
    }

    /// Carries out a choice, as far as the document and the panel go.
    pub fn run_context_choice(
        &mut self,
        id: NodeId,
        choice: Choice,
        facts: &ContextFacts,
    ) -> (effect: ContextEffect)
        requires
            old(self).valid(),
        ensures
            final(self).valid(),
            choice_outcome(*old(self), *final(self), id, choice, *facts, effect),
    {
        match choice {
            Choice::CopySvg => self.copy_rendered(id, true),
            Choice::CopyPng => self.copy_rendered(id, false),
            Choice::ApplyCrop => ContextEffect::Done(DocChange::Unchanged),
            Choice::CopyProperties => match &self.open {
                None => ContextEffect::Done(DocChange::Unchanged),
                Some(open) => match open.doc.get(id) {
                    None => ContextEffect::Done(DocChange::Unchanged),
                    Some(node) => ContextEffect::CopyStyle(
                        StyleClipboard { document: open.doc.id, node: node.copy() },
                    ),
                },
            },
            Choice::CustomCrop => {
                self.open_crop_fields(id);
                ContextEffect::Done(DocChange::Unchanged)
            },
            _ => {
                let built: Result<Vec<Operation>, LayerError> = match &self.open {
                    None => {
                        let change = self.refuse_without_document(label_of(choice));
                        return ContextEffect::Done(change);
                    },
                    Some(open) => if open.editable {
                        build_choice(&open.doc, id, choice, facts)
                    } else {
                        Err(LayerError::ReadOnly)
                    },
                };
                let edit = match built {
                    Err(error) => Err(error),
                    Ok(operations) => Ok(LayerEdit { operations, selection: None }),
                };
                assert(edit == crate::panel::unselecting(built));
                ContextEffect::Done(self.run_layer_edit(label_of(choice), edit))
            },
        }
    }

    /// Has a layer rendered for the clipboard, as far as a document is open.
    fn copy_rendered(&mut self, id: NodeId, svg: bool) -> (effect: ContextEffect)
        ensures
            match old(self).open {
                None => {
                    &&& effect == ContextEffect::Done(DocChange::Unchanged)
                    &&& crate::panel::only_noticed(
                        *old(self),
                        *final(self),
                        "Copy"@,
                        LayerError::DocumentClosed,
                    )
                },
                Some(_) => {
                    &&& effect == (ContextEffect::CopyRendered { node: id, svg: svg })
                    &&& *final(self) == *old(self)
                },
            },
    {
        if self.open.is_none() {
            self.show_error("Copy", LayerError::DocumentClosed);
            return ContextEffect::Done(DocChange::Unchanged);
        }
        ContextEffect::CopyRendered { node: id, svg }
    }

    fn open_crop_fields(&mut self, id: NodeId)
        ensures
            match old(self).open {
                None => *final(self) == *old(self),
                Some(open) => match shown_crop(open.doc, id) {
                    Some(window) => picker_opened(
                        *old(self),
                        *final(self),
                        open.doc.id,
                        id,
                        seq![("Apply crop"@, Choice::ApplyCrop)],
                        Some(window),
                    ),
                    None => *final(self) == *old(self),
                },
            },
    {
        let (document, window) = match &self.open {
            None => {
                return ;
            },
            Some(open) => match open.doc.get(id) {
                None => {
                    return ;
                },
                Some(node) => match &*node.data {
                    NodeData::Bitmap(bitmap) => (
                        open.doc.id,
                        match bitmap.crop {
                            Some(crop) => crop,
                            None => CropWindow {
                                x: Scalar::of(crate::scalar::ZERO),
                                y: Scalar::of(crate::scalar::ZERO),
                                width: Scalar::of(crate::scalar::ONE),
                                height: Scalar::of(crate::scalar::ONE),
                            },
                        },
                    ),
                    _ => {
                        return ;
                    },
                },
            },
        };
        let mut choices: Vec<ContextChoice> = Vec::new();
        assert(shown_choices(choices@) =~= Seq::<(Seq<char>, Choice)>::empty());
        offer(&mut choices, "Apply crop", Choice::ApplyCrop);
        assert(shown_choices(choices@) =~= seq![("Apply crop"@, Choice::ApplyCrop)]);
        self.context_picker = Some(
            ContextPicker { document, node: id, choices, crop_fields: Some(window) },
        );
    }

    /// A choice of the open picker is activated. `fields` is what the crop
    /// fields hold, where each holds a number. The picker closes, and the choice
    /// is carried out where the document is still the one it was opened on.
    pub fn activate_choice(
        &mut self,
        choice: Choice,
        fields: Option<CropWindow>,
        facts: &ContextFacts,
    ) -> (effect: ContextEffect)
        requires
            old(self).valid(),
        ensures
            final(self).valid(),
            activation_outcome(*old(self), *final(self), choice, fields, *facts, effect),
    {
        match self.take_choice(choice, fields) {
            Some((node, chosen)) => self.run_context_choice(node, chosen, facts),
            None => ContextEffect::Done(DocChange::Unchanged),
        }
    }

    /// Takes a choice of the open picker, which closes; gives back what is to be
    /// carried out, where the document is still the one it was opened on.
    pub(crate) fn take_choice(&mut self, choice: Choice, fields: Option<CropWindow>) -> (r: Option<
        (NodeId, Choice),
    >)
        requires
            old(self).valid(),
        ensures
            final(self).valid(),
            taken_choice(*old(self), *final(self), choice, fields, r),
    {
        if self.context_picker.is_none() {
            return None;
        }
        let chosen = match choice {
            Choice::ApplyCrop => match fields {
                None => {
                    self.show_notice("Enter a number in each crop field".to_owned());
                    return None;
                },
                Some(window) => Choice::CropRectangle(window),
            },
            _ => choice,
        };
        let (document, node) = match &self.context_picker {
            None => {
                return None;
            },
            Some(picker) => (picker.document, picker.node),
        };
        self.context_picker = None;
        let current = match &self.open {
            None => false,
            Some(open) => open.doc.id.raw == document.raw,
        };
        if current {
            Some((node, chosen))
        } else {
            None
        }
    }
}

/// What taking a choice of the open picker does, and what is then carried out.
pub open spec fn taken_choice(
    before: FantaDesignPanel,
    after: FantaDesignPanel,
    choice: Choice,
    fields: Option<CropWindow>,
    r: Option<(NodeId, Choice)>,
) -> bool {
    match before.context_picker {
        None => after == before && r is None,
        Some(picker) => if choice is ApplyCrop && fields is None {
            told(before, after, "Enter a number in each crop field"@) && r is None
        } else {
            let chosen = if choice is ApplyCrop {
                Choice::CropRectangle(fields->0)
            } else {
                choice
            };
            &&& after == (FantaDesignPanel { context_picker: None, ..before })
            &&& r == (if before.open matches Some(open) && open.doc.id == picker.document {
                Some((picker.node, chosen))
            } else {
                None
            })
        },
    }
}

/// What activating a choice of the open picker does.
pub open spec fn activation_outcome(
    before: FantaDesignPanel,
    after: FantaDesignPanel,
    choice: Choice,
    fields: Option<CropWindow>,
    facts: ContextFacts,
    effect: ContextEffect,
) -> bool {
    match before.context_picker {
        None => after == before && effect == ContextEffect::Done(DocChange::Unchanged),
        Some(picker) => if choice is ApplyCrop && fields is None {
            told(before, after, "Enter a number in each crop field"@) && effect
                == ContextEffect::Done(DocChange::Unchanged)
        } else {
            let chosen = if choice is ApplyCrop {
                Choice::CropRectangle(fields->0)
            } else {
                choice
            };
            let closed = FantaDesignPanel { context_picker: None, ..before };
            if before.open matches Some(open) && open.doc.id == picker.document {
                choice_outcome(closed, after, picker.node, chosen, facts, effect)
            } else {
                after == closed && effect == ContextEffect::Done(DocChange::Unchanged)
            }
        },
    }
}

/// A picker never acts on another document than the one it was opened on.
pub proof fn lemma_picker_keeps_to_its_document(
    before: FantaDesignPanel,
    after: FantaDesignPanel,
    choice: Choice,
    fields: Option<CropWindow>,
    facts: ContextFacts,
    effect: ContextEffect,
)
    requires
        activation_outcome(before, after, choice, fields, facts, effect),
        before.context_picker matches Some(picker) && !(before.open matches Some(open)
            && open.doc.id == picker.document),
    ensures
        after.open == before.open,
{
}

// ---------------------------------------------------------------------------
// Pasting, media and thumbnails
// ---------------------------------------------------------------------------

/// What pasting in the place of a layer builds: `pasted` holds the host's
/// operations where layers were copied. What is created is selected.
pub open spec fn paste_built(
    pasted: Option<Result<Vec<Operation>, LayerError>>,
    r: Result<LayerEdit, LayerError>,
) -> bool {
    match pasted {
        None => r == Err::<LayerEdit, LayerError>(LayerError::CopyLayersFirst),
        Some(Err(error)) => r == Err::<LayerEdit, LayerError>(error),
        Some(Ok(operations)) => r is Ok && r->Ok_0.operations@ == operations@ && (
        r->Ok_0.selection matches Some(selection) && selection@
            == crate::layer_context_ops::root_creations(operations@, operations@)),
    }
}

/// What pasting in the place of a layer does.
pub open spec fn paste_outcome(
    before: FantaDesignPanel,
    after: FantaDesignPanel,
    pasted: Option<Result<Vec<Operation>, LayerError>>,
    change: DocChange,
) -> bool {
    exists|r: Result<LayerEdit, LayerError>| #[trigger]
        paste_built(pasted, r) && crate::panel::command_outcome(
            before,
            after,
            "Paste to replace"@,
            r,
            change,
        )
}

/// The document and the kind of media that are asked for.
pub open spec fn prompt_for(panel: FantaDesignPanel, id: NodeId) -> Option<(DocId, MediaSlot)> {
    match panel.open {
        None => None,
        Some(open) => match crate::scene::find(open.doc.nodes@, id) {
            None => None,
            Some(node) => Some(
                (
                    open.doc.id,
                    (if *node.data is Video {
                        MediaSlot::Video
                    } else {
                        MediaSlot::Image
                    }),
                ),
            ),
        },
    }
}

impl FantaDesignPanel {
    /// Pastes copied layers in the place of a layer.
    pub fn paste_layer_to_replace(
        &mut self,
        pasted: Option<Result<Vec<Operation>, LayerError>>,
    ) -> (change: DocChange)
        requires
            old(self).valid(),
        ensures
            final(self).valid(),
            paste_outcome(*old(self), *final(self), pasted, change),
    {
        let built = match pasted {
            None => Err(LayerError::CopyLayersFirst),
            Some(Err(error)) => Err(error),
            Some(Ok(operations)) => {
                let selection = Some(created_roots(&operations));
                Ok(LayerEdit { operations, selection })
            },
        };
        assert(paste_built(pasted, built));
        self.run_layer_edit("Paste to replace", built)
    }

    /// The document and the kind of media to choose for a layer.
    pub fn media_prompt(&self, id: NodeId) -> (prompt: Option<(DocId, MediaSlot)>)
        ensures
            prompt == prompt_for(*self, id),
    {
        match &self.open {
            None => None,
            Some(open) => match open.doc.get(id) {
                None => None,
                Some(node) => Some((open.doc.id, media_slot(node))),
            },
        }
    }

    /// Puts chosen media in the place of a layer's. What is left over of the
    /// media is handed back when that fails.
    pub fn finish_replace_media(
        &mut self,
        expected: DocId,
        id: NodeId,
        media: &NewMedia,
    ) -> (r: Result<(), Vec<AssetId>>)
        requires
            old(self).valid(),
        ensures
            final(self).valid(),
            media_outcome(*old(self), *final(self), expected, id, *media, r),
    {
        let barred = match self.empty {
            Some(item) => !item.editable,
            None => false,
        };
        let failed: LayerError = match &mut self.open {
            None => if barred {
                LayerError::ReadOnly
            } else {
                LayerError::DocumentClosed
            },
            Some(open) => if !open.editable {
                LayerError::ReadOnly
            } else {
                match replace_media(&mut open.doc, expected, id, media) {
                    Ok(operation) => {
                        let mut step: Vec<Operation> = Vec::new();
                        step.push(operation);
                        assert(step@ =~= seq![operation]);
                        record(&mut open.history, Some("Replace media"), step);
                        return Ok(());
                    },
                    Err(error) => error,
                }
            },
        };
        let mut text = "Replace media: ".to_owned();
        let reason = failed.message();
        text.append(reason.as_str());
        self.show_notice(text);
        Err(media.assets())
    }
}

/// What replacing media does to the panel.
pub open spec fn media_outcome(
    before: FantaDesignPanel,
    after: FantaDesignPanel,
    expected: DocId,
    id: NodeId,
    media: NewMedia,
    r: Result<(), Vec<AssetId>>,
) -> bool {
    let refusal = match before.open {
        None => if before.empty matches Some(item) && !item.editable {
            Some(LayerError::ReadOnly)
        } else {
            Some(LayerError::DocumentClosed)
        },
        Some(open) => if !open.editable {
            Some(LayerError::ReadOnly)
        } else {
            crate::layer_media::media_refusal(open.doc, expected, id, media)
        },
    };
    match refusal {
        Some(error) => told(
            before,
            after,
            "Replace media: "@ + crate::layer_errors::error_text(error),
        ) && (r matches Err(left) && left@ == media.asset_list()),
        None => {
            &&& r is Ok
            &&& after.empty == before.empty
            &&& after.notices == before.notices
            &&& after.context_picker == before.context_picker
            &&& before.open is Some && after.open is Some
            &&& after.open->0.editable
            &&& crate::layer_media::media_replaced(
                before.open->0.doc,
                after.open->0.doc,
                id,
                media,
            )
            &&& exists|operation: Operation|
                after.open->0.doc.content() == #[trigger] crate::operations::applied(
                    before.open->0.doc.content(),
                    operation,
                ) && crate::panel::recorded(
                    before.open->0,
                    after.open->0,
                    Some("Replace media"@),
                    seq![operation],
                )
        },
    }
}

/// Whether a file is small enough to be read as media.
pub fn media_size_allowed(bytes: u64) -> (r: Result<(), LayerError>)
    ensures
        r == (if bytes <= 256 * 1024 * 1024 {
            Ok::<(), LayerError>(())
        } else {
            Err::<(), LayerError>(LayerError::MediaTooLarge)
        }),
{
    if bytes <= 256 * 1024 * 1024 {
        Ok(())
    } else {
        Err(LayerError::MediaTooLarge)
    }
}

/// Name of the member that marks the project's thumbnail.
pub open spec fn thumbnail_name() -> Seq<char> {
    "fanta_project_thumbnail"@
}

/// The layers, in paint order, whose mark changes: the chosen one and all that
/// have one.
pub open spec fn remarked(nodes: Seq<CanvasNode>, ids: Seq<NodeId>, id: NodeId) -> Seq<CanvasNode>
    decreases ids.len(),
{
    if ids.len() == 0 {
        Seq::empty()
    } else {
        let rest = remarked(nodes, ids.drop_last(), id);
        match crate::scene::find(nodes, ids.last()) {
            Some(node) => if node.id == id || crate::meta::json_names(node.meta).contains(
                thumbnail_name(),
            ) {
                rest.push(node)
            } else {
                rest
            },
            None => rest,
        }
    }
}

/// The operation marks the layer, or takes its mark away.
pub open spec fn remarks(operation: Operation, node: CanvasNode, id: NodeId) -> bool {
    operation matches Operation::SetMeta { id: at, old, new } && {
        &&& at == node.id
        &&& old == node.meta
        &&& remarked_meta(node.meta, new, node.id == id)
    }
}

/// The metadata with the mark, or without it, and otherwise as it was.
pub open spec fn remarked_meta(old: Value, new: Value, mark: bool) -> bool {
    &&& crate::meta::json_object(new)
    &&& crate::meta::json_texts(new) == crate::meta::object_texts(old).remove(thumbnail_name())
    &&& crate::meta::json_numbers(new) == crate::meta::object_numbers(old).remove(thumbnail_name())
    &&& crate::meta::json_others(new) == crate::meta::object_others(old).remove(thumbnail_name())
    &&& crate::meta::json_flags(new) == (if mark {
        crate::meta::object_flags(old).insert(thumbnail_name(), true)
    } else {
        crate::meta::object_flags(old).remove(thumbnail_name())
    })
    &&& crate::meta::json_names(new) == (if mark {
        crate::meta::object_names(old).insert(thumbnail_name())
    } else {
        crate::meta::object_names(old).remove(thumbnail_name())
    })
}

pub open spec fn visible_size(size: Option<Size>) -> bool {
    let zero = Scalar::of(crate::scalar::ZERO);
    size matches Some(size) && size.width.finite() && size.height.finite() && zero.lt(size.width)
        && zero.lt(size.height)
}

/// What choosing a layer as the project's thumbnail builds. `size` is what the
/// layer visibly covers.
pub open spec fn thumbnail_built(
    doc: Doc,
    id: NodeId,
    size: Option<Size>,
    r: Result<Vec<Operation>, LayerError>,
) -> bool {
    if !crate::layer_context_ops::can_edit(doc, id) {
        r == Err::<Vec<Operation>, LayerError>(LayerError::Locked)
    } else if !visible_size(size) {
        r == Err::<Vec<Operation>, LayerError>(LayerError::NoVisibleBounds)
    } else {
        let marked = remarked(doc.nodes@, crate::scene::all_layers(doc.nodes@), id);
        r is Ok && r->Ok_0@.len() == marked.len() && forall|k: int|
            0 <= k < marked.len() ==> remarks(r->Ok_0@[k], #[trigger] marked[k], id)
    }
}

fn build_thumbnail(doc: &Doc, id: NodeId, size: Option<Size>) -> (r: Result<
    Vec<Operation>,
    LayerError,
>)
    ensures
        thumbnail_built(*doc, id, size, r),
{
    if !editable(doc, id) {
        return Err(LayerError::Locked);
    }
    let zero = Scalar::of(crate::scalar::ZERO);
    let visible = match size {
        Some(size) => size.width.is_finite() && size.height.is_finite() && zero.less(size.width)
            && zero.less(size.height),
        None => false,
    };
    if !visible {
        return Err(LayerError::NoVisibleBounds);
    }
    let ids = doc.all_layers();
    let mut operations: Vec<Operation> = Vec::new();
    let mut i: usize = 0;
    assert(ids@.take(0) =~= Seq::<NodeId>::empty());
    while i < ids.len()
        invariant
            i <= ids@.len(),
            operations@.len() == remarked(doc.nodes@, ids@.take(i as int), id).len(),
            forall|k: int|
                0 <= k < operations@.len() ==> remarks(
                    operations@[k],
                    #[trigger] remarked(doc.nodes@, ids@.take(i as int), id)[k],
                    id,
                ),
        decreases ids@.len() - i,
    {
        let ghost head = remarked(doc.nodes@, ids@.take(i as int), id);
        let ghost before = operations@;
        proof {
            assert(ids@.take(i + 1).drop_last() =~= ids@.take(i as int));
            assert(ids@.take(i + 1).last() == ids@[i as int]);
        }
        if let Some(node) = doc.get(ids[i]) {
            let selected = node.id == id;
            if selected || has_member(&node.meta, "fanta_project_thumbnail") {
                let mut meta = object_or_empty(&node.meta);
                if selected {
                    insert_flag(&mut meta, "fanta_project_thumbnail", true);
                } else {
                    remove_member(&mut meta, "fanta_project_thumbnail");
                }
                assert(remarked_meta(node.meta, meta, selected));
                operations.push(
                    Operation::SetMeta { id: node.id, old: copy_meta(&node.meta), new: meta },
                );
                proof {
                    let next = remarked(doc.nodes@, ids@.take(i + 1), id);
                    assert(next == head.push(*node));
                    assert forall|k: int| 0 <= k < operations@.len() implies remarks(
                        operations@[k],
                        #[trigger] next[k],
                        id,
                    ) by {
                        if k < head.len() {
                            assert(next[k] == head[k]);
                            assert(operations@[k] == before[k]);
                        }
                    }
                }
            }
        }
        i = i + 1;
    }
    assert(ids@.take(ids@.len() as int) =~= ids@);
    Ok(operations)
}

/// What making a layer the project's thumbnail does.
pub open spec fn thumbnail_outcome(
    before: FantaDesignPanel,
    after: FantaDesignPanel,
    id: NodeId,
    size: Option<Size>,
    change: DocChange,
) -> bool {
    match before.open {
        None => crate::panel::command_without_document(
            before,
            after,
            "Set project thumbnail"@,
            change,
        ),
        Some(open) => exists|r: Result<Vec<Operation>, LayerError>| #[trigger]
            thumbnail_built(open.doc, id, size, r) && crate::panel::command_outcome(
                before,
                after,
                "Set project thumbnail"@,
                crate::panel::unselecting(r),
                change,
            ),
    }
}

impl FantaDesignPanel {
    /// Makes a layer the project's thumbnail; no other layer stays marked.
    pub fn set_layer_thumbnail(&mut self, id: NodeId, size: Option<Size>) -> (change: DocChange)
        requires
            old(self).valid(),
        ensures
            final(self).valid(),
            thumbnail_outcome(*old(self), *final(self), id, size, change),
    {
        let built = match &self.open {
            None => {
                return self.refuse_without_document("Set project thumbnail");
            },
            Some(open) => build_thumbnail(&open.doc, id, size),
        };
        assert(thumbnail_built(self.open->0.doc, id, size, built));
        let edit = match built {
            Err(error) => Err(error),
            Ok(operations) => Ok(LayerEdit { operations, selection: None }),
        };
        assert(edit == crate::panel::unselecting(built));
        self.run_layer_edit("Set project thumbnail", edit)
    }
}

/// The layer carries the mark of the project's thumbnail.
pub open spec fn is_thumbnail(node: CanvasNode) -> bool {
    crate::meta::json_names(node.meta).contains(thumbnail_name())
}

/// Every layer that a thumbnail command touches is a layer of the document, and
/// one of the list.
proof fn lemma_remarked_members(doc: Doc, ids: Seq<NodeId>, id: NodeId)
    requires
        doc.well_formed(),
    ensures
        ({
            let marked = remarked(doc.nodes@, ids, id);
            &&& forall|k: int|
                0 <= k < marked.len() ==> doc.content().nodes.dom().contains(
                    (#[trigger] marked[k]).id,
                ) && doc.content().nodes[marked[k].id] == marked[k] && ids.contains(marked[k].id)
            &&& forall|at: int|
                0 <= at < ids.len() && crate::scene::find(
                    doc.nodes@,
                    #[trigger] ids[at],
                ) is Some && (ids[at] == id || is_thumbnail(doc.content().nodes[ids[at]]))
                    ==> names_layer(marked, marked.len() as int, ids[at])
        }),
    decreases ids.len(),
{
    if ids.len() > 0 {
        let front = ids.drop_last();
        lemma_remarked_members(doc, front, id);
        crate::operations::lemma_find_is_content(doc, ids.last());
        let rest = remarked(doc.nodes@, front, id);
        let marked = remarked(doc.nodes@, ids, id);
        assert forall|k: int| 0 <= k < marked.len() implies doc.content().nodes.dom().contains(
            (#[trigger] marked[k]).id,
        ) && doc.content().nodes[marked[k].id] == marked[k] && ids.contains(marked[k].id) by {
            if k < rest.len() {
                assert(rest[k] == marked[k]);
                let at = choose|at: int| 0 <= at < front.len() && front[at] == rest[k].id;
                assert(ids[at] == marked[k].id);
            } else {
                assert(ids[ids.len() - 1] == marked[k].id);
            }
        }
        assert forall|at: int|
            0 <= at < ids.len() && crate::scene::find(doc.nodes@, #[trigger] ids[at]) is Some && (
            ids[at] == id || is_thumbnail(doc.content().nodes[ids[at]])) implies names_layer(
            marked,
            marked.len() as int,
            ids[at],
        ) by {
            if at < front.len() {
                assert(front[at] == ids[at]);
                let k = choose|k: int| 0 <= k < rest.len() && (#[trigger] rest[k]).id == ids[at];
                assert(marked[k].id == ids[at]);
            } else {
                assert(marked[marked.len() - 1].id == ids[at]);
            }
        }
    }
}

/// One of the first `n` layers has the id.
pub open spec fn names_layer(marked: Seq<CanvasNode>, n: int, id: NodeId) -> bool {
    exists|k: int| 0 <= k < n && (#[trigger] marked[k]).id == id
}

/// What holds of a layer after the first `n` operations of a thumbnail command.
pub open spec fn half_remarked(
    doc: Doc,
    marked: Seq<CanvasNode>,
    id: NodeId,
    after: crate::operations::Content,
    n: int,
    at: NodeId,
) -> bool {
    let before = doc.content().nodes[at];
    &&& after.nodes.dom().contains(at)
    &&& after.nodes[at] == (CanvasNode { meta: after.nodes[at].meta, ..before })
    &&& if names_layer(marked, n, at) {
        remarked_meta(before.meta, after.nodes[at].meta, at == id)
    } else {
        after.nodes[at].meta == before.meta
    }
}

proof fn lemma_half_remarked(
    doc: Doc,
    id: NodeId,
    marked: Seq<CanvasNode>,
    operations: Seq<Operation>,
    n: int,
)
    requires
        doc.well_formed(),
        operations.len() == marked.len(),
        forall|k: int| 0 <= k < marked.len() ==> remarks(operations[k], #[trigger] marked[k], id),
        forall|k: int|
            0 <= k < marked.len() ==> doc.content().nodes.dom().contains(
                (#[trigger] marked[k]).id,
            ) && doc.content().nodes[marked[k].id] == marked[k],
        0 <= n <= operations.len(),
    ensures
        crate::operations::carried(doc.content(), operations.take(n)),
        forall|at: NodeId|
            doc.content().nodes.dom().contains(at) ==> #[trigger] half_remarked(
                doc,
                marked,
                id,
                crate::operations::all_applied(doc.content(), operations.take(n)),
                n,
                at,
            ),
    decreases n,
{
    let content = doc.content();
    crate::operations::lemma_doc_filed(doc);
    let after = crate::operations::all_applied(content, operations.take(n));
    if n == 0 {
        assert(operations.take(0) =~= Seq::<Operation>::empty());
    } else {
        lemma_half_remarked(doc, id, marked, operations, n - 1);
        let before = crate::operations::all_applied(content, operations.take(n - 1));
        assert(operations.take(n).drop_last() =~= operations.take(n - 1));
        assert(operations.take(n).last() == operations[n - 1]);
        let node = marked[n - 1];
        assert(remarks(operations[n - 1], node, id));
        assert(half_remarked(doc, marked, id, before, n - 1, node.id));
        assert forall|at: NodeId| content.nodes.dom().contains(at) implies #[trigger] half_remarked(
            doc,
            marked,
            id,
            after,
            n,
            at,
        ) by {
            assert(half_remarked(doc, marked, id, before, n - 1, at));
            if at == node.id {
                assert(names_layer(marked, n, at));
            } else {
                if names_layer(marked, n - 1, at) {
                    let k = choose|k: int| 0 <= k < n - 1 && (#[trigger] marked[k]).id == at;
                    assert(names_layer(marked, n, at));
                }
                if names_layer(marked, n, at) {
                    let k = choose|k: int| 0 <= k < n && (#[trigger] marked[k]).id == at;
                    assert(k < n - 1);
                    assert(names_layer(marked, n - 1, at));
                }
            }
        }
    }
}

/// A thumbnail command goes through and leaves one thumbnail: the chosen layer.
pub proof fn lemma_single_thumbnail(
    doc: Doc,
    id: NodeId,
    size: Option<Size>,
    operations: Vec<Operation>,
    at: NodeId,
)
    requires
        doc.well_formed(),
        thumbnail_built(doc, id, size, Ok(operations)),
        crate::scene::all_layers(doc.nodes@).contains(id),
        crate::scene::all_layers(doc.nodes@).contains(at),
        doc.content().nodes.dom().contains(at),
    ensures
        crate::operations::carried(doc.content(), operations@),
        ({
            let after = crate::operations::all_applied(doc.content(), operations@);
            after.nodes.dom().contains(at) && is_thumbnail(after.nodes[at]) == (at == id)
        }),
{
    let ids = crate::scene::all_layers(doc.nodes@);
    let marked = remarked(doc.nodes@, ids, id);
    lemma_remarked_members(doc, ids, id);
    lemma_half_remarked(doc, id, marked, operations@, operations@.len() as int);
    assert(operations@.take(operations@.len() as int) =~= operations@);
    let after = crate::operations::all_applied(doc.content(), operations@);
    assert(half_remarked(doc, marked, id, after, operations@.len() as int, at));
    crate::operations::lemma_find_is_content(doc, at);
    let place = choose|place: int| 0 <= place < ids.len() && ids[place] == at;
    assert(crate::scene::find(doc.nodes@, ids[place]) is Some);
}

} // verus!
