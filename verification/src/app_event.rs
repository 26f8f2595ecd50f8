//! Events between the terminal UI and the application loop.
use vstd::prelude::*;

use crate::referral::{PersistentReferralInviteOffer, ReferralError};
use crate::text::optional_text;

verus! {

/// Whether an invite that was sent comes with a reward.
#[derive(Clone, Copy, Debug, Eq, PartialEq, Structural)]
pub enum ReferralInviteRewardStatus {
    Included,
    NotIncluded,
    Unknown,
}

/// An event of the terminal UI. Request identifiers are the numbers of random UUIDs.
#[derive(Debug, Eq, PartialEq)]
pub enum AppEvent {
    RefreshReferralInviteOffer { request_id: u128 },
    ReferralInviteOfferLoaded {
        request_id: u128,
        result: Result<Option<PersistentReferralInviteOffer>, ReferralError>,
    },
    OpenReferralInviteEmailPrompt { initial_email: Option<String> },
    OpenReferralInviteConfirmation { email: String },
    SendReferralInvite { email: String },
    ReferralInviteSent {
        request_id: u128,
        email: String,
        result: Result<ReferralInviteRewardStatus, ReferralError>,
    },
    /// An event that is not about referrals.
    Other,
}

/// The value of an [`AppEvent`].
pub enum AppEventView {
    RefreshReferralInviteOffer { request_id: u128 },
    ReferralInviteOfferLoaded {
        request_id: u128,
        result: Result<Option<PersistentReferralInviteOffer>, ReferralError>,
    },
    OpenReferralInviteEmailPrompt { initial_email: Option<Seq<char>> },
    OpenReferralInviteConfirmation { email: Seq<char> },
    SendReferralInvite { email: Seq<char> },
    ReferralInviteSent {
        request_id: u128,
        email: Seq<char>,
        result: Result<ReferralInviteRewardStatus, ReferralError>,
    },
    Other,
}

impl View for AppEvent {
    type V = AppEventView;

    open spec fn view(&self) -> AppEventView {
        match *self {
            AppEvent::RefreshReferralInviteOffer {
                request_id,
            } => AppEventView::RefreshReferralInviteOffer { request_id },
            AppEvent::ReferralInviteOfferLoaded {
                request_id,
                result,
            } => AppEventView::ReferralInviteOfferLoaded { request_id, result },
            AppEvent::OpenReferralInviteEmailPrompt {
                initial_email,
            } => AppEventView::OpenReferralInviteEmailPrompt {
                initial_email: optional_text(initial_email),
            },
            AppEvent::OpenReferralInviteConfirmation {
                email,
            } => AppEventView::OpenReferralInviteConfirmation { email: email@ },
            AppEvent::SendReferralInvite { email } => AppEventView::SendReferralInvite {
                email: email@,
            },
            AppEvent::ReferralInviteSent {
                request_id,
                email,
                result,
            } => AppEventView::ReferralInviteSent { request_id, email: email@, result },
            AppEvent::Other => AppEventView::Other,
        }
    }
}

/// The name under which a referral event is logged. It is the name of the event's variant and
/// nothing else, because the fields can hold email addresses.
pub open spec fn redacted_name(event: AppEventView) -> Option<Seq<char>> {
    match event {
        AppEventView::RefreshReferralInviteOffer { .. } => Some("RefreshReferralInviteOffer"@),
        AppEventView::ReferralInviteOfferLoaded { .. } => Some("ReferralInviteOfferLoaded"@),
        AppEventView::OpenReferralInviteEmailPrompt { .. } => Some(
            "OpenReferralInviteEmailPrompt"@,
        ),
        AppEventView::OpenReferralInviteConfirmation { .. } => Some(
            "OpenReferralInviteConfirmation"@,
        ),
        AppEventView::SendReferralInvite { .. } => Some("SendReferralInvite"@),
        AppEventView::ReferralInviteSent { .. } => Some("ReferralInviteSent"@),
        AppEventView::Other => None,
    }
}

/// The name under which a referral event is logged; none for other events.
pub fn redacted_referral_event_variant(event: &AppEvent) -> (name: Option<&'static str>)
    ensures
        match name {
            Some(name) => Some(name@),
            None => None,
        } == redacted_name(event@),
{
    match event {
        AppEvent::RefreshReferralInviteOffer { .. } => Some("RefreshReferralInviteOffer"),
        AppEvent::ReferralInviteOfferLoaded { .. } => Some("ReferralInviteOfferLoaded"),
        AppEvent::OpenReferralInviteEmailPrompt { .. } => Some("OpenReferralInviteEmailPrompt"),
        AppEvent::OpenReferralInviteConfirmation { .. } => Some("OpenReferralInviteConfirmation"),
        AppEvent::SendReferralInvite { .. } => Some("SendReferralInvite"),
        AppEvent::ReferralInviteSent { .. } => Some("ReferralInviteSent"),
        AppEvent::Other => None,
    }
}

/// What is logged of an event tells nothing of what the event holds: it is the same for every email
/// address.
pub proof fn lemma_logged_names_hide_the_email(
    email: Seq<char>,
    other: Seq<char>,
    request_id: u128,
    other_request_id: u128,
    result: Result<ReferralInviteRewardStatus, ReferralError>,
    other_result: Result<ReferralInviteRewardStatus, ReferralError>,
)
    ensures
        redacted_name(AppEventView::OpenReferralInviteEmailPrompt { initial_email: Some(email) })
            == redacted_name(
            AppEventView::OpenReferralInviteEmailPrompt { initial_email: Some(other) },
        ),
        redacted_name(AppEventView::OpenReferralInviteConfirmation { email }) == redacted_name(
            AppEventView::OpenReferralInviteConfirmation { email: other },
        ),
        redacted_name(AppEventView::SendReferralInvite { email }) == redacted_name(
            AppEventView::SendReferralInvite { email: other },
        ),
        redacted_name(AppEventView::ReferralInviteSent { request_id, email, result })
            == redacted_name(
            AppEventView::ReferralInviteSent {
                request_id: other_request_id,
                email: other,
                result: other_result,
            },
        ),
{
}

/// Referral events, and only they, are logged under a name, and the name is that of the event.
pub proof fn lemma_logged_names_tell_the_event(event: AppEventView)
    ensures
        redacted_name(event) is None <==> event is Other,
        redacted_name(event) matches Some(name) ==> {
            &&& event is RefreshReferralInviteOffer ==> name == "RefreshReferralInviteOffer"@
            &&& event is ReferralInviteOfferLoaded ==> name == "ReferralInviteOfferLoaded"@
            &&& event is OpenReferralInviteEmailPrompt ==> name == "OpenReferralInviteEmailPrompt"@
            &&& event is OpenReferralInviteConfirmation ==> name
                == "OpenReferralInviteConfirmation"@
            &&& event is SendReferralInvite ==> name == "SendReferralInvite"@
            &&& event is ReferralInviteSent ==> name == "ReferralInviteSent"@
        },
{
}

} // verus!
