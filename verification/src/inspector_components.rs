//! The inspector's building blocks, before they are drawn. Icons, handlers and
//! elements are the host's.

use vstd::prelude::*;
use vstd::string::*;

use crate::scalar::Scalar;

verus! {

/// 76, the width that a property's label gets by itself.
pub const PROPERTY_LABEL_WIDTH: u64 = 0x4053000000000000;

/// A tab that shows its icon, and its label too while it is selected.
#[derive(Debug, PartialEq)]
pub struct CollapsibleIconTab<I, H> {
    pub scope: &'static str,
    pub index: usize,
    pub icon: I,
    pub label: String,
    pub selected: bool,
    pub on_click: H,
}

impl<I, H> CollapsibleIconTab<I, H> {
    pub fn new(
        scope: &'static str,
        index: usize,
        icon: I,
        label: &str,
        selected: bool,
        on_click: H,
    ) -> (tab: Self)
        ensures
            tab.scope == scope,
            tab.index == index,
            tab.icon == icon,
            tab.label@ == label@,
            tab.selected == selected,
            tab.on_click == on_click,
    {
        CollapsibleIconTab { scope, index, icon, label: label.to_owned(), selected, on_click }
    }

    /// The label that is drawn: none while the tab is collapsed.
    pub fn shown_label(&self) -> (label: Option<&str>)
        ensures
            match label {
                Some(label) => self.selected && label@ == self.label@,
                None => !self.selected,
            },
    {
        if self.selected {
            Some(self.label.as_str())
        } else {
            None
        }
    }

    /// The width of the expanded tab: room for the icon, and for each character
    /// of the label.
    pub fn expanded_width(&self) -> (width: u128)
        ensures
            width == 36 + 7 * self.label@.len(),
    {
        let count: usize = self.label.as_str().unicode_len();
        36 + 7 * (count as u128)
    }

    /// The widths that the tab's animation starts and ends with.
    pub fn animated_widths(&self) -> (widths: (u128, u128))
        ensures
            widths == (if self.selected {
                (32u128, (36 + 7 * self.label@.len()) as u128)
            } else {
                ((36 + 7 * self.label@.len()) as u128, 32u128)
            }),
    {
        let expanded = self.expanded_width();
        if self.selected {
            (32, expanded)
        } else {
            (expanded, 32)
        }
    }
}

#[derive(Debug, PartialEq)]
pub struct CollapsibleIconTabBar<T> {
    pub id: &'static str,
    pub tabs: Vec<T>,
}

impl<T> CollapsibleIconTabBar<T> {
    pub fn new(id: &'static str) -> (bar: Self)
        ensures
            bar.id == id,
            bar.tabs@.len() == 0,
    {
        CollapsibleIconTabBar { id, tabs: Vec::new() }
    }

    /// The bar with one more tab at its end.
    pub fn tab(self, tab: T) -> (bar: Self)
        ensures
            bar.id == self.id,
            bar.tabs@ == self.tabs@.push(tab),
    {
        let mut tabs = self.tabs;
        tabs.push(tab);
        CollapsibleIconTabBar { id: self.id, tabs }
    }
}

/// The header of a section, with a line above it unless the panel draws one.
#[derive(Debug, PartialEq)]
pub struct InspectorSectionHeader<E> {
    pub title: String,
    pub action: Option<E>,
    pub top_border: bool,
}

impl<E> InspectorSectionHeader<E> {
    pub fn new(title: &str) -> (header: Self)
        ensures
            header.title@ == title@,
            header.action is None,
            header.top_border,
    {
        InspectorSectionHeader { title: title.to_owned(), action: None, top_border: true }
    }

    pub fn action(self, action: E) -> (header: Self)
        ensures
            header == (InspectorSectionHeader { action: Some(action), ..self }),
    {
        InspectorSectionHeader { title: self.title, action: Some(action), top_border: self.top_border }
    }

    pub fn without_top_border(self) -> (header: Self)
        ensures
            header == (InspectorSectionHeader { top_border: false, ..self }),
    {
        InspectorSectionHeader { title: self.title, action: self.action, top_border: false }
    }
}

/// A labelled row.
#[derive(Debug, PartialEq)]
pub struct InspectorPropertyRow<E> {
    pub label: String,
    pub content: E,
    pub inset: bool,
    pub label_width: Scalar,
}

impl<E> InspectorPropertyRow<E> {
    pub fn new(label: &str, content: E) -> (row: Self)
        ensures
            row.label@ == label@,
            row.content == content,
            row.inset,
            row.label_width == Scalar::of(PROPERTY_LABEL_WIDTH),
    {
        InspectorPropertyRow {
            label: label.to_owned(),
            content,
            inset: true,
            label_width: Scalar::of(PROPERTY_LABEL_WIDTH),
        }
    }

    pub fn inset(self, inset: bool) -> (row: Self)
        ensures
            row == (InspectorPropertyRow { inset: inset, ..self }),
    {
        InspectorPropertyRow {
            label: self.label,
            content: self.content,
            inset,
            label_width: self.label_width,
        }
    }

    pub fn label_width(self, width: Scalar) -> (row: Self)
        ensures
            row == (InspectorPropertyRow { label_width: width, ..self }),
    {
        InspectorPropertyRow {
            label: self.label,
            content: self.content,
            inset: self.inset,
            label_width: width,
        }
    }
}

/// A message in the middle of an empty inspector.
#[derive(Debug, PartialEq)]
pub struct InspectorMessage {
    pub message: String,
}

impl InspectorMessage {
    pub fn new(message: &str) -> (r: Self)
        ensures
            r.message@ == message@,
    {
        InspectorMessage { message: message.to_owned() }
    }
}

} // verus!
