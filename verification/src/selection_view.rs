//! Popup views of the terminal UI, described by what they show and what a selection does.
use vstd::prelude::*;
use vstd::string::*;

use crate::app_event::{AppEvent, AppEventView};
use crate::referral_confirmation::{ConfirmationHeader, ConfirmationHeaderView};
use crate::text::optional_text;

verus! {

/// An entry of a selection view.
#[derive(Debug, Eq, PartialEq)]
pub struct SelectionItem {
    pub name: String,
    pub description: Option<String>,
    /// The events that selecting the entry sends, in order.
    pub actions: Vec<AppEvent>,
    pub is_disabled: bool,
    /// Whether selecting the entry closes the view.
    pub dismiss_on_select: bool,
}

/// The value of a [`SelectionItem`].
pub struct SelectionItemView {
    pub name: Seq<char>,
    pub description: Option<Seq<char>>,
    pub actions: Seq<AppEventView>,
    pub is_disabled: bool,
    pub dismiss_on_select: bool,
}

impl View for SelectionItem {
    type V = SelectionItemView;

    open spec fn view(&self) -> SelectionItemView {
        SelectionItemView {
            name: self.name@,
            description: optional_text(self.description),
            actions: self.actions@.map_values(|action: AppEvent| action@),
            is_disabled: self.is_disabled,
            dismiss_on_select: self.dismiss_on_select,
        }
    }
}

/// An entry that only shows its name.
pub open spec fn plain_item(name: Seq<char>) -> SelectionItemView {
    SelectionItemView {
        name,
        description: None,
        actions: Seq::empty(),
        is_disabled: false,
        dismiss_on_select: false,
    }
}

impl SelectionItem {
    /// An entry that only shows its name.
    pub fn new(name: &str) -> (item: Self)
        ensures
            item@ == plain_item(name@),
            item.description is None,
            item.actions@.len() == 0,
    {
        let item = SelectionItem {
            name: name.to_owned(),
            description: None,
            actions: Vec::new(),
            is_disabled: false,
            dismiss_on_select: false,
        };
        proof {
            assert(item@.actions =~= Seq::empty());
        }
        item
    }

    /// An entry that closes its view.
    pub fn closing(name: &str) -> (item: Self)
        ensures
            item@ == (SelectionItemView { dismiss_on_select: true, ..plain_item(name@) }),
    {
        let mut item = SelectionItem::new(name);
        item.dismiss_on_select = true;
        item
    }

    /// An entry that closes its view and sends an event.
    pub fn sending(name: &str, event: AppEvent) -> (item: Self)
        ensures
            item@ == (SelectionItemView {
                actions: seq![event@],
                dismiss_on_select: true,
                ..plain_item(name@)
            }),
    {
        let mut item = SelectionItem::closing(name);
        item.actions = Vec::new();
        item.actions.push(event);
        proof {
            assert(item@.actions =~= seq![event@]);
        }
        item
    }
}

/// A view to select an entry from.
#[derive(Debug, Eq, PartialEq)]
pub struct SelectionViewParams {
    pub view_id: Option<&'static str>,
    pub title: Option<String>,
    pub subtitle: Option<String>,
    pub header: Option<ConfirmationHeader>,
    /// Whether the usual key hints stand below the view.
    pub has_standard_hint: bool,
    pub items: Vec<SelectionItem>,
    /// The entry that is selected at first.
    pub initial_selected_idx: Option<usize>,
    /// Whether the view can be left without a selection.
    pub allow_cancel: bool,
}

/// The value of [`SelectionViewParams`].
pub struct SelectionViewParamsView {
    pub view_id: Option<Seq<char>>,
    pub title: Option<Seq<char>>,
    pub subtitle: Option<Seq<char>>,
    pub header: Option<ConfirmationHeaderView>,
    pub has_standard_hint: bool,
    pub items: Seq<SelectionItemView>,
    pub initial_selected_idx: Option<usize>,
    pub allow_cancel: bool,
}

/// The values of entries.
pub open spec fn item_values(items: Seq<SelectionItem>) -> Seq<SelectionItemView> {
    items.map_values(|item: SelectionItem| item@)
}

impl View for SelectionViewParams {
    type V = SelectionViewParamsView;

    open spec fn view(&self) -> SelectionViewParamsView {
        SelectionViewParamsView {
            view_id: match self.view_id {
                Some(view_id) => Some(view_id@),
                None => None,
            },
            title: optional_text(self.title),
            subtitle: optional_text(self.subtitle),
            header: match self.header {
                Some(header) => Some(header@),
                None => None,
            },
            has_standard_hint: self.has_standard_hint,
            items: item_values(self.items@),
            initial_selected_idx: self.initial_selected_idx,
            allow_cancel: self.allow_cancel,
        }
    }
}

/// A view without anything in it, which can be left.
pub open spec fn empty_view() -> SelectionViewParamsView {
    SelectionViewParamsView {
        view_id: None,
        title: None,
        subtitle: None,
        header: None,
        has_standard_hint: false,
        items: Seq::empty(),
        initial_selected_idx: None,
        allow_cancel: true,
    }
}

impl Default for SelectionViewParams {
    /// A view without anything in it, which can be left.
    fn default() -> (params: Self)
        ensures
            params@ == empty_view(),
            params.items@.len() == 0,
    {
        let params = SelectionViewParams {
            view_id: None,
            title: None,
            subtitle: None,
            header: None,
            has_standard_hint: false,
            items: Vec::new(),
            initial_selected_idx: None,
            allow_cancel: true,
        };
        proof {
            assert(params@.items =~= Seq::empty());
        }
        params
    }
}

/// A view to enter a text into.
#[derive(Debug, Eq, PartialEq)]
pub struct TextPrompt {
    pub view_id: Option<&'static str>,
    pub title: String,
    pub placeholder: String,
    pub initial_text: String,
    pub context_label: Option<String>,
}

/// The value of a [`TextPrompt`].
pub struct TextPromptView {
    pub view_id: Option<Seq<char>>,
    pub title: Seq<char>,
    pub placeholder: Seq<char>,
    pub initial_text: Seq<char>,
    pub context_label: Option<Seq<char>>,
}

impl View for TextPrompt {
    type V = TextPromptView;

    open spec fn view(&self) -> TextPromptView {
        TextPromptView {
            view_id: match self.view_id {
                Some(view_id) => Some(view_id@),
                None => None,
            },
            title: self.title@,
            placeholder: self.placeholder@,
            initial_text: self.initial_text@,
            context_label: optional_text(self.context_label),
        }
    }
}

} // verus!
