//! The referral flow of the chat widget: from the entry in the usage menu to the invite that was
//! sent.
//!
//! The widget decides what is shown and which results still count. Showing views and sending requests
//! are the caller's.
use vstd::prelude::*;
use vstd::string::*;

use crate::app_event::{AppEvent, AppEventView, ReferralInviteRewardStatus};
use crate::ids::{is_random_id, new_random_id};
use crate::referral::{
    PersistentReferralInviteOffer, ReferralError, ReferralIdentity,
};
use crate::referral_confirmation::{
    confirmation_sections, referral_confirmation_header, referral_reward_description,
    reward_description, ConfirmationHeaderView,
};
use crate::selection_view::{
    empty_view, plain_item, SelectionItem, SelectionItemView, SelectionViewParams,
    SelectionViewParamsView, TextPrompt, TextPromptView,
};
use crate::text::{optional_text, trim, trimmed};

verus! {

/// Name of the views of the referral flow. At most one of them is open.
pub const REFERRAL_INVITE_VIEW_ID: &'static str = "referral-invite";

/// The referral state of the chat widget.
#[derive(Debug)]
pub struct ChatWidget {
    pub has_chatgpt_account: bool,
    /// The offer that can be taken up now.
    pub referral_invite_offer: Option<PersistentReferralInviteOffer>,
    /// The offer request whose result is awaited.
    pub pending_referral_offer_request_id: Option<u128>,
    /// The invite whose result is awaited.
    pub pending_referral_send_request_id: Option<u128>,
}

/// A view to close.
#[derive(Clone, Copy, Debug, Eq, PartialEq, Structural)]
pub enum DismissedView {
    UsageMenu,
    ReferralInvite,
}

/// Whether a status code says for certain that the invite was not sent. A timeout and a request that
/// the client closed say nothing.
pub open spec fn is_definite_rejection(status_code: u16) -> bool {
    400 <= status_code < 500 && status_code != 408 && status_code != 499
}

/// Whether a status code says for certain that the invite was not sent.
pub fn is_definite_referral_rejection_status(status_code: u16) -> (definite: bool)
    ensures
        definite == is_definite_rejection(status_code),
{
    400 <= status_code && status_code < 500 && status_code != 408 && status_code != 499
}

/// Whether an error says for certain that the invite was not sent.
pub open spec fn definitely_rejected(error: ReferralError) -> bool {
    error matches ReferralError::InviteRequestFailed { status_code: Some(status_code) }
        && is_definite_rejection(status_code)
}

/// What a sender is told about an error.
pub open spec fn send_error_message(error: ReferralError) -> Seq<char> {
    if definitely_rejected(error) {
        "The invite wasn't sent. Check the email or your eligibility."@
    } else {
        match error {
            ReferralError::AccountChanged =>
                "Your account changed, so the invite was not sent. Reopen /usage to try again."@,
            ReferralError::ChatGptAuthenticationRequired
            | ReferralError::UserIdUnavailable
            | ReferralError::AccountIdUnavailable =>
                "Sign in with ChatGPT, then reopen /usage to try again."@,
            ReferralError::UnsupportedClient =>
                "Referral invites aren't available in this client session."@,
            ReferralError::RequestTimedOut
            | ReferralError::InviteRequestFailed { .. }
            | ReferralError::EligibilityRequestFailed { .. }
            | ReferralError::RulesRequestFailed { .. } =>
                "We couldn't confirm the invite. Ask the recipient before trying again."@,
        }
    }
}

fn rejected(error: &ReferralError) -> (rejected: bool)
    ensures
        rejected == definitely_rejected(*error),
{
    match error {
        ReferralError::InviteRequestFailed {
            status_code: Some(status_code),
        } => is_definite_referral_rejection_status(*status_code),
        _ => false,
    }
}

/// What a sender is told about an error.
pub fn referral_send_error_message(error: &ReferralError) -> (message: &'static str)
    ensures
        message@ == send_error_message(*error),
{
    if rejected(error) {
        return "The invite wasn't sent. Check the email or your eligibility.";
    }
    match error {
        ReferralError::AccountChanged =>
            "Your account changed, so the invite was not sent. Reopen /usage to try again.",
        ReferralError::ChatGptAuthenticationRequired
        | ReferralError::UserIdUnavailable
        | ReferralError::AccountIdUnavailable =>
            "Sign in with ChatGPT, then reopen /usage to try again.",
        ReferralError::UnsupportedClient =>
            "Referral invites aren't available in this client session.",
        ReferralError::RequestTimedOut
        | ReferralError::InviteRequestFailed { .. }
        | ReferralError::EligibilityRequestFailed { .. }
        | ReferralError::RulesRequestFailed { .. } =>
            "We couldn't confirm the invite. Ask the recipient before trying again.",
    }
}

/// The entry that closes a message.
pub open spec fn close_item() -> SelectionItemView {
    SelectionItemView { dismiss_on_select: true, ..plain_item("Close"@) }
}

/// A view that shows a message.
pub open spec fn message_view(message: Seq<char>) -> SelectionViewParamsView {
    SelectionViewParamsView {
        view_id: Some(REFERRAL_INVITE_VIEW_ID@),
        title: Some("Invite someone to Codex"@),
        subtitle: Some(message),
        items: seq![close_item()],
        ..empty_view()
    }
}

/// A view that shows a message.
pub fn referral_message_params(message: String) -> (params: SelectionViewParams)
    ensures
        params@ == message_view(message@),
{
    let mut params = SelectionViewParams::default();
    params.view_id = Some(REFERRAL_INVITE_VIEW_ID);
    params.title = Some("Invite someone to Codex".to_owned());
    params.subtitle = Some(message);
    params.items = Vec::new();
    params.items.push(SelectionItem::closing("Close"));
    proof {
        assert(params@.items =~= seq![close_item()]);
    }
    params
}

/// The entry that goes back to the email.
pub open spec fn edit_item(email: Seq<char>) -> SelectionItemView {
    SelectionItemView {
        actions: seq![
            AppEventView::OpenReferralInviteEmailPrompt { initial_email: Some(email) },
        ],
        dismiss_on_select: true,
        ..plain_item("Edit email"@)
    }
}

/// The view after an invite that failed. Only where the invite was certainly not sent can the email be
/// edited.
pub open spec fn send_error_view(error: ReferralError, email: Seq<char>) -> SelectionViewParamsView {
    let view = message_view(send_error_message(error));
    if definitely_rejected(error) {
        SelectionViewParamsView { items: seq![edit_item(email), close_item()], ..view }
    } else {
        view
    }
}

/// The view after an invite that failed.
pub fn referral_send_error_params(error: &ReferralError, email: &str) -> (params: SelectionViewParams)
    ensures
        params@ == send_error_view(*error, email@),
{
    let mut params = referral_message_params(referral_send_error_message(error).to_owned());
    if rejected(error) {
        let mut items: Vec<SelectionItem> = Vec::new();
        items.push(
            SelectionItem::sending(
                "Edit email",
                AppEvent::OpenReferralInviteEmailPrompt { initial_email: Some(email.to_owned()) },
            ),
        );
        items.push(SelectionItem::closing("Close"));
        params.items = items;
        proof {
            assert(params@.items =~= seq![edit_item(email@), close_item()]);
        }
    }
    params
}

/// What a sender is told about an invite that was sent.
pub open spec fn sent_message(status: ReferralInviteRewardStatus, email: Seq<char>) -> Seq<char> {
    match status {
        ReferralInviteRewardStatus::Included => "Invite sent to "@ + email + "."@,
        ReferralInviteRewardStatus::NotIncluded => "Invite sent to "@ + email
            + ", but this invite did not include a reward."@,
        ReferralInviteRewardStatus::Unknown => "Invite sent to "@ + email
            + "; reward status wasn't confirmed."@,
    }
}

/// The view while an invite is being sent. It cannot be left.
pub open spec fn sending_view(email: Seq<char>) -> SelectionViewParamsView {
    SelectionViewParamsView {
        view_id: Some(REFERRAL_INVITE_VIEW_ID@),
        title: Some("Invite someone to Codex"@),
        subtitle: Some("Sending an invite to "@ + email + "..."@),
        items: seq![
            SelectionItemView { is_disabled: true, ..plain_item("Sending invite..."@) },
        ],
        allow_cancel: false,
        ..empty_view()
    }
}

/// The view in which a sender confirms an invite. Sending takes a deliberate choice.
pub open spec fn confirmation_view(
    offer: PersistentReferralInviteOffer,
    email: Seq<char>,
) -> SelectionViewParamsView {
    SelectionViewParamsView {
        view_id: Some(REFERRAL_INVITE_VIEW_ID@),
        header: Some(
            ConfirmationHeaderView {
                title: "Send referral invite?"@,
                body: confirmation_sections(offer, email),
            },
        ),
        has_standard_hint: true,
        items: seq![
            SelectionItemView {
                actions: seq![AppEventView::SendReferralInvite { email }],
                dismiss_on_select: true,
                ..plain_item("Send invite"@)
            },
            SelectionItemView { dismiss_on_select: true, ..plain_item("Cancel"@) },
        ],
        initial_selected_idx: Some(1),
        ..empty_view()
    }
}

/// The entry of the usage menu that starts the flow.
pub open spec fn menu_item(offer: PersistentReferralInviteOffer) -> SelectionItemView {
    SelectionItemView {
        description: Some(reward_description(offer)),
        actions: seq![AppEventView::OpenReferralInviteEmailPrompt { initial_email: None }],
        dismiss_on_select: true,
        ..plain_item("Invite someone to Codex"@)
    }
}

/// The widget after a refresh of the offer was started under the given identifier.
pub open spec fn offer_refresh_started(widget: ChatWidget, request_id: u128) -> ChatWidget {
    ChatWidget {
        referral_invite_offer: None,
        pending_referral_offer_request_id: if widget.has_chatgpt_account {
            Some(request_id)
        } else {
            None
        },
        ..widget
    }
}

/// The widget after the result of an offer request.
pub open spec fn offer_refresh_finished(
    widget: ChatWidget,
    request_id: u128,
    result: Result<Option<PersistentReferralInviteOffer>, ReferralError>,
) -> ChatWidget {
    if widget.pending_referral_offer_request_id == Some(request_id) {
        ChatWidget {
            referral_invite_offer: match result {
                Ok(offer) => offer,
                Err(_) => None,
            },
            pending_referral_offer_request_id: None,
            ..widget
        }
    } else {
        widget
    }
}

/// The widget after an invite was started under the given identifier.
pub open spec fn send_started(widget: ChatWidget, request_id: u128) -> ChatWidget {
    if widget.referral_invite_offer is Some {
        ChatWidget { pending_referral_send_request_id: Some(request_id), ..widget }
    } else {
        widget
    }
}

/// The widget after the result of an invite. An offer that was taken up is gone; after an error it
/// stays.
pub open spec fn send_finished(
    widget: ChatWidget,
    request_id: u128,
    result: Result<ReferralInviteRewardStatus, ReferralError>,
) -> ChatWidget {
    if widget.pending_referral_send_request_id == Some(request_id) {
        ChatWidget {
            referral_invite_offer: if result is Ok {
                None
            } else {
                widget.referral_invite_offer
            },
            pending_referral_send_request_id: None,
            ..widget
        }
    } else {
        widget
    }
}

/// The widget after everything about referrals was dropped.
pub open spec fn cleared(widget: ChatWidget) -> ChatWidget {
    ChatWidget {
        referral_invite_offer: None,
        pending_referral_offer_request_id: None,
        pending_referral_send_request_id: None,
        ..widget
    }
}

/// Whether the result of an offer request is awaited.
pub open spec fn awaits_offer(widget: ChatWidget, request_id: u128) -> bool {
    widget.pending_referral_offer_request_id == Some(request_id)
}

/// The usage menu, opened on the given entry.
pub open spec fn refreshed_menu(
    menu: SelectionViewParamsView,
    selected_index: Option<usize>,
) -> SelectionViewParamsView {
    SelectionViewParamsView { initial_selected_idx: selected_index, ..menu }
}

/// The event that asks for an offer, for a ChatGPT account.
pub open spec fn refresh_event(widget: ChatWidget, request_id: u128) -> Option<AppEvent> {
    if widget.has_chatgpt_account {
        Some(AppEvent::RefreshReferralInviteOffer { request_id })
    } else {
        None
    }
}

/// The entry of the usage menu, as long as there is an offer.
pub open spec fn menu_entry(widget: ChatWidget) -> Option<SelectionItemView> {
    match widget.referral_invite_offer {
        Some(offer) => Some(menu_item(offer)),
        None => None,
    }
}

/// The prompt for the recipient's email.
pub open spec fn email_prompt(initial_email: Option<Seq<char>>) -> TextPromptView {
    TextPromptView {
        view_id: Some(REFERRAL_INVITE_VIEW_ID@),
        title: "Invite someone to Codex"@,
        placeholder: "name@example.com"@,
        initial_text: match initial_email {
            Some(email) => email,
            None => Seq::empty(),
        },
        context_label: Some("Enter one email address, then press Enter."@),
    }
}

/// What entering an email leads to.
pub open spec fn entered(email: Seq<char>) -> AppEventView {
    AppEventView::OpenReferralInviteConfirmation { email: trimmed(email) }
}

/// The view that follows an entered email.
pub open spec fn confirmation_shown(widget: ChatWidget, email: Seq<char>) -> SelectionViewParamsView {
    match widget.referral_invite_offer {
        Some(offer) => confirmation_view(offer, email),
        None => message_view(
            "This referral offer is no longer available. Reopen /usage to check again."@,
        ),
    }
}

/// The account that has to send an invite and the view meanwhile; nothing without an offer.
pub open spec fn started_send(widget: ChatWidget, email: Seq<char>) -> Option<
    (ReferralIdentity, SelectionViewParamsView),
> {
    match widget.referral_invite_offer {
        Some(offer) => Some((offer.expected_identity, sending_view(email))),
        None => None,
    }
}

/// The view that replaces the one shown while sending; nothing for a result that is not awaited.
pub open spec fn send_replacement(
    widget: ChatWidget,
    request_id: u128,
    email: Seq<char>,
    result: Result<ReferralInviteRewardStatus, ReferralError>,
) -> Option<SelectionViewParamsView> {
    if widget.pending_referral_send_request_id == Some(request_id) {
        Some(
            match result {
                Ok(status) => message_view(sent_message(status, email)),
                Err(error) => send_error_view(error, email),
            },
        )
    } else {
        None
    }
}

/// The usage menu with an offer that came in while it was open: what was selected stays selected.
pub fn refreshed_usage_menu(menu: SelectionViewParams, selected_index: Option<usize>) -> (params:
    SelectionViewParams)
    ensures
        params@ == (SelectionViewParamsView { initial_selected_idx: selected_index, ..menu@ }),
        params@ == refreshed_menu(menu@, selected_index),
{
    let mut params = menu;
    params.initial_selected_idx = selected_index;
    params
}

/// What entering an email leads to.
pub fn email_entered(email: &str) -> (event: AppEvent)
    ensures
        event@ == (AppEventView::OpenReferralInviteConfirmation { email: trimmed(email@) }),
        event@ == entered(email@),
{
    AppEvent::OpenReferralInviteConfirmation { email: trim(email) }
}

impl ChatWidget {
    /// A widget that knows of no offer.
    pub fn new(has_chatgpt_account: bool) -> (widget: Self)
        ensures
            widget == (ChatWidget {
                has_chatgpt_account,
                referral_invite_offer: None,
                pending_referral_offer_request_id: None,
                pending_referral_send_request_id: None,
            }),
    {
        ChatWidget {
            has_chatgpt_account,
            referral_invite_offer: None,
            pending_referral_offer_request_id: None,
            pending_referral_send_request_id: None,
        }
    }

    /// Starts a refresh of the offer under the given identifier: the offer so far no longer counts,
    /// and the returned event asks for a new one. Without a ChatGPT account there is none.
    pub fn begin_offer_refresh(&mut self, request_id: u128) -> (event: Option<AppEvent>)
        ensures
            *final(self) == offer_refresh_started(*old(self), request_id),
            event == if old(self).has_chatgpt_account {
                Some(AppEvent::RefreshReferralInviteOffer { request_id })
            } else {
                None
            },
            event == refresh_event(*old(self), request_id),
    {
        self.referral_invite_offer = None;
        self.pending_referral_offer_request_id = None;
        if !self.has_chatgpt_account {
            return None;
        }
        self.pending_referral_offer_request_id = Some(request_id);
        Some(AppEvent::RefreshReferralInviteOffer { request_id })
    }

    /// Starts a refresh of the offer under a fresh identifier.
    pub fn start_referral_invite_offer_refresh(&mut self) -> (event: Option<AppEvent>)
        ensures
            event is Some <==> old(self).has_chatgpt_account,
            event matches Some(event) ==> (event matches AppEvent::RefreshReferralInviteOffer {
                request_id,
            } && is_random_id(request_id) && *final(self) == offer_refresh_started(
                *old(self),
                request_id,
            )),
            event is None ==> forall|request_id: u128|
                *final(self) == #[trigger] offer_refresh_started(*old(self), request_id),
    {
        if !self.has_chatgpt_account {
            self.referral_invite_offer = None;
            self.pending_referral_offer_request_id = None;
            return None;
        }
        let request_id: u128 = new_random_id();
        self.begin_offer_refresh(request_id)
    }

    /// Takes the result of an offer request; the result of any request but the awaited one is
    /// ignored. Says whether the usage menu, where it is open, has to be shown anew.
    pub fn finish_referral_invite_offer_refresh(
        &mut self,
        request_id: u128,
        result: Result<Option<PersistentReferralInviteOffer>, ReferralError>,
    ) -> (refresh_menu: bool)
        ensures
            *final(self) == offer_refresh_finished(*old(self), request_id, result),
            refresh_menu == (old(self).pending_referral_offer_request_id == Some(request_id)),
            refresh_menu == awaits_offer(*old(self), request_id),
    {
        match self.pending_referral_offer_request_id {
            Some(pending) => {
                if pending != request_id {
                    return false;
                }
            },
            None => {
                return false;
            },
        }
        self.pending_referral_offer_request_id = None;
        self.referral_invite_offer = match result {
            Ok(offer) => offer,
            Err(_) => None,
        };
        true
    }

    /// The entry of the usage menu that starts the flow, as long as there is an offer.
    pub fn referral_invite_menu_item(&self) -> (item: Option<SelectionItem>)
        ensures
            match item {
                Some(item) => Some(item@),
                None => None,
            } == match self.referral_invite_offer {
                Some(offer) => Some(menu_item(offer)),
                None => None,
            },
            match item {
                Some(item) => Some(item@),
                None => None,
            } == menu_entry(*self),
    {
        match &self.referral_invite_offer {
            Some(offer) => {
                let mut item = SelectionItem::sending(
                    "Invite someone to Codex",
                    AppEvent::OpenReferralInviteEmailPrompt { initial_email: None },
                );
                item.description = Some(referral_reward_description(offer));
                Some(item)
            },
            None => None,
        }
    }

    /// The prompt for the recipient's email. What is entered goes to [`email_entered`].
    pub fn show_referral_invite_email_prompt(&self, initial_email: Option<String>) -> (prompt:
        TextPrompt)
        ensures
            prompt@ == (TextPromptView {
                view_id: Some(REFERRAL_INVITE_VIEW_ID@),
                title: "Invite someone to Codex"@,
                placeholder: "name@example.com"@,
                initial_text: match optional_text(initial_email) {
                    Some(email) => email,
                    None => Seq::empty(),
                },
                context_label: Some("Enter one email address, then press Enter."@),
            }),
            prompt@ == email_prompt(optional_text(initial_email)),
    {
        let initial_text = match initial_email {
            Some(email) => email,
            None => String::new(),
        };
        TextPrompt {
            view_id: Some(REFERRAL_INVITE_VIEW_ID),
            title: "Invite someone to Codex".to_owned(),
            placeholder: "name@example.com".to_owned(),
            initial_text,
            context_label: Some("Enter one email address, then press Enter.".to_owned()),
        }
    }

    /// The view in which the sender confirms the invite, or a message where there is no offer any
    /// more.
    pub fn show_referral_invite_confirmation(&self, email: String) -> (params: SelectionViewParams)
        ensures
            params@ == match self.referral_invite_offer {
                Some(offer) => confirmation_view(offer, email@),
                None => message_view(
                    "This referral offer is no longer available. Reopen /usage to check again."@,
                ),
            },
            params@ == confirmation_shown(*self, email@),
    {
        let offer = match &self.referral_invite_offer {
            Some(offer) => offer,
            None => {
                return self.show_referral_invite_message(
                    "This referral offer is no longer available. Reopen /usage to check again.",
                );
            },
        };
        let header = referral_confirmation_header(offer, email.as_str());
        let mut params = SelectionViewParams::default();
        params.view_id = Some(REFERRAL_INVITE_VIEW_ID);
        params.header = Some(header);
        params.has_standard_hint = true;
        params.items = Vec::new();
        let ghost recipient = email@;
        params.items.push(
            SelectionItem::sending("Send invite", AppEvent::SendReferralInvite { email }),
        );
        params.items.push(SelectionItem::closing("Cancel"));
        params.initial_selected_idx = Some(1);
        proof {
            assert(params@.items =~= confirmation_view(*offer, recipient).items);
        }
        params
    }

    /// Starts an invite under the given identifier. Returns the account that has to send it and the
    /// view to show meanwhile; nothing where there is no offer.
    pub fn begin_send(&mut self, request_id: u128, email: &str) -> (started: Option<
        (ReferralIdentity, SelectionViewParams),
    >)
        ensures
            *final(self) == send_started(*old(self), request_id),
            started is Some <==> old(self).referral_invite_offer is Some,
            started matches Some((identity, params)) ==> identity
                == old(self).referral_invite_offer->Some_0.expected_identity && params@
                == sending_view(email@),
            match started {
                Some((identity, params)) => Some((identity, params@)),
                None => None,
            } == started_send(*old(self), email@),
    {
        let expected_identity = match &self.referral_invite_offer {
            Some(offer) => offer.expected_identity.clone(),
            None => {
                return None;
            },
        };
        self.pending_referral_send_request_id = Some(request_id);
        let mut params = SelectionViewParams::default();
        params.view_id = Some(REFERRAL_INVITE_VIEW_ID);
        params.title = Some("Invite someone to Codex".to_owned());
        params.subtitle = Some("Sending an invite to ".to_owned().concat(email).concat("..."));
        let mut item = SelectionItem::new("Sending invite...");
        item.is_disabled = true;
        params.items = Vec::new();
        params.items.push(item);
        params.allow_cancel = false;
        proof {
            assert(params@.items =~= sending_view(email@).items);
        }
        Some((expected_identity, params))
    }

    /// Starts an invite under a fresh identifier, which comes first in the result.
    pub fn start_referral_invite_send(&mut self, email: &str) -> (started: Option<
        (u128, ReferralIdentity, SelectionViewParams),
    >)
        ensures
            started is Some <==> old(self).referral_invite_offer is Some,
            started matches Some((request_id, identity, params)) ==> is_random_id(request_id)
                && *final(self) == send_started(*old(self), request_id) && identity
                == old(self).referral_invite_offer->Some_0.expected_identity && params@
                == sending_view(email@),
            started is None ==> *final(self) == *old(self),
    {
        if self.referral_invite_offer.is_none() {
            return None;
        }
        let request_id: u128 = new_random_id();
        match self.begin_send(request_id, email) {
            Some((identity, params)) => Some((request_id, identity, params)),
            None => None,
        }
    }

    /// Takes the result of an invite; the result of any but the awaited one is ignored. Returns the
    /// view that replaces the one shown while sending, if that is still open.
    pub fn finish_referral_invite_send(
        &mut self,
        request_id: u128,
        email: &str,
        result: Result<ReferralInviteRewardStatus, ReferralError>,
    ) -> (replacement: Option<SelectionViewParams>)
        ensures
            *final(self) == send_finished(*old(self), request_id, result),
            replacement is Some <==> old(self).pending_referral_send_request_id == Some(request_id),
            replacement matches Some(params) ==> params@ == match result {
                Ok(status) => message_view(sent_message(status, email@)),
                Err(error) => send_error_view(error, email@),
            },
            match replacement {
                Some(params) => Some(params@),
                None => None,
            } == send_replacement(*old(self), request_id, email@, result),
    {
        match self.pending_referral_send_request_id {
            Some(pending) => {
                if pending != request_id {
                    return None;
                }
            },
            None => {
                return None;
            },
        }
        self.pending_referral_send_request_id = None;
        let params = match result {
            Ok(status) => {
                self.referral_invite_offer = None;
                let rest = match status {
                    ReferralInviteRewardStatus::Included => ".",
                    ReferralInviteRewardStatus::NotIncluded =>
                        ", but this invite did not include a reward.",
                    ReferralInviteRewardStatus::Unknown => "; reward status wasn't confirmed.",
                };
                referral_message_params("Invite sent to ".to_owned().concat(email).concat(rest))
            },
            Err(error) => referral_send_error_params(&error, email),
        };
        Some(params)
    }

    /// Drops everything about referrals, and names the views to close.
    pub fn clear_pending_referral_invite_requests(&mut self) -> (dismissed: [DismissedView; 2])
        ensures
            *final(self) == cleared(*old(self)),
            dismissed@ == seq![DismissedView::UsageMenu, DismissedView::ReferralInvite],
    {
        self.referral_invite_offer = None;
        self.pending_referral_offer_request_id = None;
        self.pending_referral_send_request_id = None;
        [DismissedView::UsageMenu, DismissedView::ReferralInvite]
    }

    /// The view that shows a message.
    pub fn show_referral_invite_message(&self, message: &str) -> (params: SelectionViewParams)
        ensures
            params@ == message_view(message@),
    {
        referral_message_params(message.to_owned())
    }
}

/// Whether an entry sends an invite.
pub open spec fn sends_invite(item: SelectionItemView) -> bool {
    exists|i: int| 0 <= i < item.actions.len() && (#[trigger] item.actions[i]) is SendReferralInvite
}

/// Whether any entry of a view sends an invite.
pub open spec fn offers_to_send(view: SelectionViewParamsView) -> bool {
    exists|i: int| 0 <= i < view.items.len() && sends_invite(#[trigger] view.items[i])
}

/// An invite goes out only by a deliberate choice: the confirmation opens on an entry that does
/// nothing but close it, and the one other entry sends the invite to the recipient shown.
pub proof fn lemma_sending_takes_a_choice(offer: PersistentReferralInviteOffer, email: Seq<char>)
    ensures
        ({
            let view = confirmation_view(offer, email);
            &&& view.items.len() == 2
            &&& view.initial_selected_idx == Some(1usize)
            &&& view.items[1].actions.len() == 0
            &&& view.items[1].dismiss_on_select
            &&& view.items[0].actions == seq![AppEventView::SendReferralInvite { email }]
        }),
{
}

/// No other view of the flow sends an invite: not the entry in the usage menu, not the view while
/// sending, no message, and no error either. A failed invite cannot be repeated with one key.
pub proof fn lemma_only_the_confirmation_sends(
    offer: PersistentReferralInviteOffer,
    email: Seq<char>,
    message: Seq<char>,
    error: ReferralError,
)
    ensures
        !sends_invite(menu_item(offer)),
        !offers_to_send(sending_view(email)),
        !offers_to_send(message_view(message)),
        !offers_to_send(send_error_view(error, email)),
        offers_to_send(confirmation_view(offer, email)),
{
    let confirmation = confirmation_view(offer, email);
    assert(confirmation.items[0].actions[0] is SendReferralInvite);
    assert(sends_invite(confirmation.items[0]));
}

/// While an invite is being sent the view cannot be left and nothing in it can be selected.
pub proof fn lemma_sending_cannot_be_canceled(email: Seq<char>)
    ensures
        !sending_view(email).allow_cancel,
        forall|i: int|
            0 <= i < sending_view(email).items.len() ==> (#[trigger] sending_view(
                email,
            ).items[i]).is_disabled,
{
}

/// The email can be edited after an error exactly where the invite was certainly not sent; then the
/// prompt opens on the email that was tried.
pub proof fn lemma_only_certain_rejections_can_be_edited(error: ReferralError, email: Seq<char>)
    ensures
        definitely_rejected(error) ==> send_error_view(error, email).items[0].actions == seq![
            AppEventView::OpenReferralInviteEmailPrompt { initial_email: Some(email) },
        ],
        !definitely_rejected(error) ==> send_error_view(error, email).items == seq![close_item()],
{
}

/// A result counts once: a second result under the same identifier changes nothing.
pub proof fn lemma_results_count_once(
    widget: ChatWidget,
    request_id: u128,
    offer_result: Result<Option<PersistentReferralInviteOffer>, ReferralError>,
    second_offer_result: Result<Option<PersistentReferralInviteOffer>, ReferralError>,
    send_result: Result<ReferralInviteRewardStatus, ReferralError>,
    second_send_result: Result<ReferralInviteRewardStatus, ReferralError>,
)
    ensures
        offer_refresh_finished(
            offer_refresh_finished(widget, request_id, offer_result),
            request_id,
            second_offer_result,
        ) == offer_refresh_finished(widget, request_id, offer_result),
        send_finished(
            send_finished(widget, request_id, send_result),
            request_id,
            second_send_result,
        ) == send_finished(widget, request_id, send_result),
{
}

/// Only the latest request counts: once another one was started, the result of the one before
/// changes nothing.
pub proof fn lemma_only_the_latest_request_counts(
    widget: ChatWidget,
    first: u128,
    second: u128,
    offer_result: Result<Option<PersistentReferralInviteOffer>, ReferralError>,
    send_result: Result<ReferralInviteRewardStatus, ReferralError>,
)
    requires
        first != second,
    ensures
        ({
            let refreshed = offer_refresh_started(offer_refresh_started(widget, first), second);
            offer_refresh_finished(refreshed, first, offer_result) == refreshed
        }),
        widget.referral_invite_offer is Some ==> {
            let sending = send_started(send_started(widget, first), second);
            send_finished(sending, first, send_result) == sending
        },
{
}

/// After an account change no result of an earlier request counts.
pub proof fn lemma_account_change_drops_results(
    widget: ChatWidget,
    request_id: u128,
    offer_result: Result<Option<PersistentReferralInviteOffer>, ReferralError>,
    send_result: Result<ReferralInviteRewardStatus, ReferralError>,
)
    ensures
        offer_refresh_finished(cleared(widget), request_id, offer_result) == cleared(widget),
        send_finished(cleared(widget), request_id, send_result) == cleared(widget),
{
}

/// What happens to the widget.
pub enum WidgetEvent {
    OfferRefreshStarted { request_id: u128 },
    OfferRefreshFinished {
        request_id: u128,
        result: Result<Option<PersistentReferralInviteOffer>, ReferralError>,
    },
    SendStarted { request_id: u128 },
    SendFinished {
        request_id: u128,
        result: Result<ReferralInviteRewardStatus, ReferralError>,
    },
    AccountChanged { has_chatgpt_account: bool },
}

/// The widget after one event.
pub open spec fn after_widget_event(widget: ChatWidget, event: WidgetEvent) -> ChatWidget {
    match event {
        WidgetEvent::OfferRefreshStarted { request_id } => offer_refresh_started(
            widget,
            request_id,
        ),
        WidgetEvent::OfferRefreshFinished { request_id, result } => offer_refresh_finished(
            widget,
            request_id,
            result,
        ),
        WidgetEvent::SendStarted { request_id } => send_started(widget, request_id),
        WidgetEvent::SendFinished { request_id, result } => send_finished(
            widget,
            request_id,
            result,
        ),
        WidgetEvent::AccountChanged { has_chatgpt_account } => cleared(
            ChatWidget { has_chatgpt_account, ..widget },
        ),
    }
}

/// The widget after events, from one that knows of no offer.
pub open spec fn after_widget_events(has_chatgpt_account: bool, events: Seq<WidgetEvent>) -> ChatWidget
    decreases events.len(),
{
    if events.len() == 0 {
        ChatWidget {
            has_chatgpt_account,
            referral_invite_offer: None,
            pending_referral_offer_request_id: None,
            pending_referral_send_request_id: None,
        }
    } else {
        after_widget_event(
            after_widget_events(has_chatgpt_account, events.drop_last()),
            events.last(),
        )
    }
}

/// Whatever happens, no offer is shown while a newer one is awaited, and both exist only for a ChatGPT
/// account. An offer that is shown was loaded since the last account change.
pub proof fn lemma_offers_are_current(has_chatgpt_account: bool, events: Seq<WidgetEvent>)
    ensures
        ({
            let widget = after_widget_events(has_chatgpt_account, events);
            &&& widget.pending_referral_offer_request_id is Some ==> widget.referral_invite_offer is None
            &&& widget.pending_referral_offer_request_id is Some ==> widget.has_chatgpt_account
            &&& widget.referral_invite_offer is Some ==> widget.has_chatgpt_account && exists|i: int|
                0 <= i < events.len() && {
                    &&& (#[trigger] events[i]) matches WidgetEvent::OfferRefreshFinished {
                        result: Ok(offer),
                        ..
                    }
                    &&& offer == widget.referral_invite_offer
                    &&& forall|j: int|
                        i < j < events.len() ==> !((#[trigger] events[j]) is AccountChanged)
                }
        }),
    decreases events.len(),
{
    if events.len() > 0 {
        let earlier = events.drop_last();
        let last = events.len() - 1;
        lemma_offers_are_current(has_chatgpt_account, earlier);
        let before = after_widget_events(has_chatgpt_account, earlier);
        let widget = after_widget_events(has_chatgpt_account, events);
        if widget.referral_invite_offer is Some {
            if before.referral_invite_offer == widget.referral_invite_offer {
                let i = choose|i: int|
                    0 <= i < earlier.len() && {
                        &&& (#[trigger] earlier[i]) matches WidgetEvent::OfferRefreshFinished {
                            result: Ok(offer),
                            ..
                        }
                        &&& offer == before.referral_invite_offer
                        &&& forall|j: int|
                            i < j < earlier.len() ==> !((#[trigger] earlier[j]) is AccountChanged)
                    };
                assert(events[i] == earlier[i]);
                assert forall|j: int| i < j < events.len() implies !((
                #[trigger] events[j]) is AccountChanged) by {
                    if j < last {
                        assert(events[j] == earlier[j]);
                    }
                }
            } else {
                assert(events[last] is OfferRefreshFinished);
            }
        }
    }
}

/// A status says for certain that nothing was sent exactly if it is one of a client's mistakes, and neither
/// a timeout, which is 408, nor a request that was given up, which is 499.
pub proof fn lemma_which_rejections_are_certain(status_code: u16, error: ReferralError)
    ensures
        is_definite_rejection(status_code) <==> (400 <= status_code <= 407 || 409 <= status_code
            <= 498),
        definitely_rejected(error) <==> (error matches ReferralError::InviteRequestFailed {
            status_code: Some(status),
        } && (400 <= status <= 407 || 409 <= status <= 498)),
{
}

/// What a sender is told about an invite that failed. Only a certain rejection is told as one; wherever the
/// invite may have been sent, the sender is asked to make sure first.
pub proof fn lemma_what_senders_are_told(error: ReferralError, status: u16)
    ensures
        400 <= status <= 407 || 409 <= status <= 498 ==> send_error_message(
            ReferralError::InviteRequestFailed { status_code: Some(status) },
        ) == "The invite wasn't sent. Check the email or your eligibility."@,
        status < 400 || status == 408 || status >= 499 ==> send_error_message(
            ReferralError::InviteRequestFailed { status_code: Some(status) },
        ) == "We couldn't confirm the invite. Ask the recipient before trying again."@,
        error == (ReferralError::InviteRequestFailed { status_code: None }) || error
            == ReferralError::RequestTimedOut || error is EligibilityRequestFailed
            || error is RulesRequestFailed ==> send_error_message(error)
            == "We couldn't confirm the invite. Ask the recipient before trying again."@,
        send_error_message(ReferralError::AccountChanged)
            == "Your account changed, so the invite was not sent. Reopen /usage to try again."@,
        error == ReferralError::ChatGptAuthenticationRequired || error
            == ReferralError::UserIdUnavailable || error == ReferralError::AccountIdUnavailable
            ==> send_error_message(error)
            == "Sign in with ChatGPT, then reopen /usage to try again."@,
        send_error_message(ReferralError::UnsupportedClient)
            == "Referral invites aren't available in this client session."@,
{
}

/// A message is shown under the flow's name and title, can be left, and has one entry, which only closes
/// it.
pub proof fn lemma_what_a_message_shows(message: Seq<char>)
    ensures
        ({
            let view = message_view(message);
            &&& view.view_id == Some("referral-invite"@)
            &&& view.title == Some("Invite someone to Codex"@)
            &&& view.subtitle == Some(message)
            &&& view.header is None
            &&& !view.has_standard_hint
            &&& view.initial_selected_idx is None
            &&& view.allow_cancel
            &&& view.items.len() == 1
            &&& view.items[0].name == "Close"@
            &&& view.items[0].description is None
            &&& view.items[0].actions.len() == 0
            &&& view.items[0].dismiss_on_select && !view.items[0].is_disabled
        }),
{
}

/// After a failed invite the sender sees what became of it. Where it was certainly not sent, the first
/// entry goes back to the email that was tried; the last one always just closes the message.
pub proof fn lemma_what_a_failed_invite_shows(error: ReferralError, email: Seq<char>)
    ensures
        ({
            let view = send_error_view(error, email);
            let plain = message_view(send_error_message(error));
            let certain = error matches ReferralError::InviteRequestFailed {
                status_code: Some(status),
            } && (400 <= status <= 407 || 409 <= status <= 498);
            &&& view.view_id == plain.view_id && view.title == plain.title
            &&& view.subtitle == Some(send_error_message(error))
            &&& view.header is None && view.allow_cancel && view.initial_selected_idx is None
                && !view.has_standard_hint
            &&& view.items.len() == if certain {
                2nat
            } else {
                1nat
            }
            &&& view.items.last() == plain.items[0]
            &&& certain ==> {
                &&& view.items[0].name == "Edit email"@
                &&& view.items[0].actions.len() == 1
                &&& view.items[0].actions[0] == (AppEventView::OpenReferralInviteEmailPrompt {
                    initial_email: Some(email),
                })
                &&& view.items[0].dismiss_on_select && !view.items[0].is_disabled
                &&& view.items[0].description is None
            }
        }),
{
}

/// A sender is told to whom the invite went, and whether it came with a reward where that is known.
pub proof fn lemma_what_a_sent_invite_shows(
    widget: ChatWidget,
    request_id: u128,
    other: u128,
    email: Seq<char>,
    result: Result<ReferralInviteRewardStatus, ReferralError>,
)
    requires
        widget.pending_referral_send_request_id == Some(request_id),
        other != request_id,
    ensures
        send_replacement(widget, other, email, result) is None,
        send_replacement(
            ChatWidget { pending_referral_send_request_id: None, ..widget },
            request_id,
            email,
            result,
        ) is None,
        ({
            let shown = send_replacement(widget, request_id, email, result);
            match result {
                Ok(ReferralInviteRewardStatus::Included) => shown == Some(
                    message_view("Invite sent to "@ + email + "."@),
                ),
                Ok(ReferralInviteRewardStatus::NotIncluded) => shown == Some(
                    message_view(
                        "Invite sent to "@ + email
                            + ", but this invite did not include a reward."@,
                    ),
                ),
                Ok(ReferralInviteRewardStatus::Unknown) => shown == Some(
                    message_view("Invite sent to "@ + email + "; reward status wasn't confirmed."@),
                ),
                Err(error) => shown == Some(send_error_view(error, email)),
            }
        }),
{
}

/// An invite is sent by the account that the offer was loaded for, and only while there is an offer.
/// Meanwhile one disabled entry shows that it is being sent, and to whom.
pub proof fn lemma_what_sending_shows(widget: ChatWidget, email: Seq<char>)
    ensures
        started_send(widget, email) is Some <==> widget.referral_invite_offer is Some,
        started_send(widget, email) matches Some((identity, view)) ==> {
            &&& identity == widget.referral_invite_offer->Some_0.expected_identity
            &&& view.view_id == Some("referral-invite"@)
            &&& view.title == Some("Invite someone to Codex"@)
            &&& view.subtitle == Some("Sending an invite to "@ + email + "..."@)
            &&& view.header is None && !view.has_standard_hint && view.initial_selected_idx is None
            &&& !view.allow_cancel
            &&& view.items.len() == 1
            &&& view.items[0].name == "Sending invite..."@
            &&& view.items[0].is_disabled && !view.items[0].dismiss_on_select
            &&& view.items[0].actions.len() == 0 && view.items[0].description is None
        },
{
}

/// The confirmation shows the offer's terms and the recipient, opens on the entry that cancels, and sends
/// to exactly that recipient. Without an offer the sender is told that it is gone.
pub proof fn lemma_what_the_confirmation_shows(widget: ChatWidget, email: Seq<char>)
    ensures
        ({
            let view = confirmation_shown(widget, email);
            match widget.referral_invite_offer {
                Some(offer) => {
                    &&& view.view_id == Some("referral-invite"@)
                    &&& view.title is None && view.subtitle is None
                    &&& view.header matches Some(header) && header.title
                        == "Send referral invite?"@ && header.body == confirmation_sections(
                        offer,
                        email,
                    )
                    &&& view.has_standard_hint && view.allow_cancel
                    &&& view.items.len() == 2
                    &&& view.items[0].name == "Send invite"@ && view.items[1].name == "Cancel"@
                    &&& view.items[0].actions.len() == 1 && view.items[0].actions[0] == (
                    AppEventView::SendReferralInvite { email })
                    &&& view.items[1].actions.len() == 0
                    &&& view.items[0].dismiss_on_select && view.items[1].dismiss_on_select
                    &&& !view.items[0].is_disabled && !view.items[1].is_disabled
                    &&& view.initial_selected_idx == Some(1usize)
                },
                None => view == message_view(
                    "This referral offer is no longer available. Reopen /usage to check again."@,
                ),
            }
        }),
{
}

/// The flow starts in the usage menu, from an entry that tells the reward, and goes on with an empty
/// prompt; the prompt hands on what was entered, trimmed, to the confirmation and to nothing else.
pub proof fn lemma_how_the_flow_starts(widget: ChatWidget, email: Seq<char>)
    ensures
        menu_entry(widget) is Some <==> widget.referral_invite_offer is Some,
        menu_entry(widget) matches Some(item) ==> {
            &&& item.name == "Invite someone to Codex"@
            &&& item.description == Some(reward_description(widget.referral_invite_offer->Some_0))
            &&& item.actions.len() == 1
            &&& item.actions[0] == (AppEventView::OpenReferralInviteEmailPrompt {
                initial_email: None,
            })
            &&& item.dismiss_on_select && !item.is_disabled
        },
        email_prompt(None).initial_text.len() == 0,
        email_prompt(Some(email)).initial_text == email,
        forall|initial: Option<Seq<char>>|
            {
                let prompt = #[trigger] email_prompt(initial);
                &&& prompt.view_id == Some("referral-invite"@)
                &&& prompt.title == "Invite someone to Codex"@
                &&& prompt.placeholder == "name@example.com"@
                &&& prompt.context_label == Some("Enter one email address, then press Enter."@)
            },
        entered(email) == (AppEventView::OpenReferralInviteConfirmation { email: trimmed(email) }),
{
}

/// How each step changes what the widget knows. A refresh drops the offer and awaits another one, for a
/// ChatGPT account only. The awaited result brings the offer, or none after an error. An invite keeps the
/// offer until it was sent. An account change drops everything. Nothing else changes.
pub proof fn lemma_how_offers_come_and_go(
    widget: ChatWidget,
    request_id: u128,
    offer: Option<PersistentReferralInviteOffer>,
    error: ReferralError,
    status: ReferralInviteRewardStatus,
)
    ensures
        ({
            let started = offer_refresh_started(widget, request_id);
            &&& started.referral_invite_offer is None
            &&& started.pending_referral_offer_request_id == Some(request_id)
                <==> widget.has_chatgpt_account
            &&& started.pending_referral_offer_request_id is Some <==> widget.has_chatgpt_account
            &&& refresh_event(widget, request_id) == if widget.has_chatgpt_account {
                Some(AppEvent::RefreshReferralInviteOffer { request_id })
            } else {
                None
            }
            &&& started.has_chatgpt_account == widget.has_chatgpt_account
            &&& started.pending_referral_send_request_id == widget.pending_referral_send_request_id
        }),
        widget.pending_referral_offer_request_id == Some(request_id) ==> {
            let loaded = offer_refresh_finished(widget, request_id, Ok(offer));
            let failed = offer_refresh_finished(widget, request_id, Err(error));
            &&& loaded.referral_invite_offer == offer
            &&& failed.referral_invite_offer is None
            &&& loaded.pending_referral_offer_request_id is None
            &&& failed.pending_referral_offer_request_id is None
            &&& loaded.has_chatgpt_account == widget.has_chatgpt_account
            &&& failed.has_chatgpt_account == widget.has_chatgpt_account
            &&& loaded.pending_referral_send_request_id == widget.pending_referral_send_request_id
            &&& failed.pending_referral_send_request_id == widget.pending_referral_send_request_id
        },
        widget.pending_referral_offer_request_id != Some(request_id) ==> offer_refresh_finished(
            widget,
            request_id,
            Ok(offer),
        ) == widget && offer_refresh_finished(widget, request_id, Err(error)) == widget,
        ({
            let sending = send_started(widget, request_id);
            &&& sending.referral_invite_offer == widget.referral_invite_offer
            &&& sending.pending_referral_offer_request_id
                == widget.pending_referral_offer_request_id
            &&& sending.has_chatgpt_account == widget.has_chatgpt_account
            &&& sending.pending_referral_send_request_id == if widget.referral_invite_offer is Some {
                Some(request_id)
            } else {
                widget.pending_referral_send_request_id
            }
        }),
        widget.pending_referral_send_request_id == Some(request_id) ==> {
            let sent = send_finished(widget, request_id, Ok(status));
            let failed = send_finished(widget, request_id, Err(error));
            &&& sent.referral_invite_offer is None
            &&& failed.referral_invite_offer == widget.referral_invite_offer
            &&& sent.pending_referral_send_request_id is None
            &&& failed.pending_referral_send_request_id is None
            &&& sent.pending_referral_offer_request_id == widget.pending_referral_offer_request_id
            &&& failed.pending_referral_offer_request_id == widget.pending_referral_offer_request_id
            &&& sent.has_chatgpt_account == widget.has_chatgpt_account
            &&& failed.has_chatgpt_account == widget.has_chatgpt_account
        },
        widget.pending_referral_send_request_id != Some(request_id) ==> send_finished(
            widget,
            request_id,
            Ok(status),
        ) == widget && send_finished(widget, request_id, Err(error)) == widget,
        ({
            let after = cleared(widget);
            &&& after.referral_invite_offer is None
            &&& after.pending_referral_offer_request_id is None
            &&& after.pending_referral_send_request_id is None
            &&& after.has_chatgpt_account == widget.has_chatgpt_account
        }),
{
}

/// The usage menu is shown anew exactly if the result of an offer request changed anything. It then shows
/// what it showed, with the entry selected that was.
pub proof fn lemma_when_the_menu_is_shown_anew(
    widget: ChatWidget,
    request_id: u128,
    result: Result<Option<PersistentReferralInviteOffer>, ReferralError>,
    menu: SelectionViewParamsView,
    selected_index: Option<usize>,
)
    ensures
        awaits_offer(widget, request_id) <==> offer_refresh_finished(widget, request_id, result)
            != widget,
        ({
            let shown = refreshed_menu(menu, selected_index);
            &&& shown.initial_selected_idx == selected_index
            &&& shown.view_id == menu.view_id && shown.title == menu.title
            &&& shown.subtitle == menu.subtitle && shown.header == menu.header
            &&& shown.has_standard_hint == menu.has_standard_hint
            &&& shown.items == menu.items && shown.allow_cancel == menu.allow_cancel
        }),
{
}

} // verus!
