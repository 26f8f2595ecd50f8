//! Referral invites: offers, identities and errors.
use vstd::prelude::*;
use vstd::string::*;

use crate::text::same_text;

verus! {

/// What the sender and the recipient of an invite can earn.
#[derive(Clone, Copy, Debug, Eq, PartialEq, Structural)]
pub enum ReferralGrantAction {
    RateLimitResetCredit,
    WorkspaceCredits,
    Unknown,
}

/// Whether and on which terms an invite can be sent.
#[derive(Clone, Debug, Eq, PartialEq)]
pub struct PersistentReferralInviteEligibility {
    pub should_show: bool,
    pub ineligible_reason: Option<String>,
    pub ineligible_reason_code: Option<String>,
    pub remaining_referrals: Option<u64>,
    pub grant_action: ReferralGrantAction,
    pub grant_amount: u64,
    pub has_rewards: bool,
    pub title: Option<String>,
    pub description: Option<String>,
}

/// The display rules of the referral program.
#[derive(Clone, Debug, Eq, PartialEq)]
pub struct ReferralEligibilityRules {
    pub rules: Vec<String>,
    pub requires_explicit_confirmation: bool,
}

/// One invite that was sent.
#[derive(Clone, Debug, Eq, PartialEq)]
pub struct ReferralInvite {
    pub referral_id: String,
    pub email: String,
    pub invite_url: String,
}

/// The backend's answer to an invite.
#[derive(Clone, Debug, Eq, PartialEq)]
pub struct ReferralInviteResponse {
    pub referral_id: String,
    pub email: String,
    pub invites: Vec<ReferralInvite>,
    pub has_rewards: Option<bool>,
}

/// The ChatGPT user and workspace that own a referral offer.
#[derive(Debug, Eq, PartialEq)]
pub struct ReferralIdentity {
    chatgpt_user_id: String,
    account_id: String,
}

/// The value of a [`ReferralIdentity`].
pub struct ReferralIdentityView {
    pub chatgpt_user_id: Seq<char>,
    pub account_id: Seq<char>,
}

impl View for ReferralIdentity {
    type V = ReferralIdentityView;

    closed spec fn view(&self) -> ReferralIdentityView {
        ReferralIdentityView {
            chatgpt_user_id: self.chatgpt_user_id@,
            account_id: self.account_id@,
        }
    }
}

impl Clone for ReferralIdentity {
    fn clone(&self) -> (copy: Self)
        ensures
            copy == *self,
    {
        ReferralIdentity {
            chatgpt_user_id: self.chatgpt_user_id.clone(),
            account_id: self.account_id.clone(),
        }
    }
}

impl ReferralIdentity {
    pub fn new(chatgpt_user_id: String, account_id: String) -> (identity: Self)
        ensures
            identity@ == (ReferralIdentityView {
                chatgpt_user_id: chatgpt_user_id@,
                account_id: account_id@,
            }),
    {
        ReferralIdentity { chatgpt_user_id, account_id }
    }

    /// Whether two identities name the same user and account.
    pub fn same(&self, other: &ReferralIdentity) -> (same: bool)
        ensures
            same == (self@ == other@),
    {
        same_text(self.chatgpt_user_id.as_str(), other.chatgpt_user_id.as_str()) && same_text(
            self.account_id.as_str(),
            other.account_id.as_str(),
        )
    }
}

/// The value of an optional identity.
pub open spec fn optional_identity(identity: Option<ReferralIdentity>) -> Option<
    ReferralIdentityView,
> {
    match identity {
        Some(identity) => Some(identity@),
        None => None,
    }
}

/// A currently available referral offer and the account for which it was loaded.
#[derive(Clone, Debug, Eq, PartialEq)]
pub struct PersistentReferralInviteOffer {
    pub expected_identity: ReferralIdentity,
    pub eligibility: PersistentReferralInviteEligibility,
    pub rules: ReferralEligibilityRules,
}

/// A sanitized failure from the client-side referral flow.
///
/// The error holds no backend response body, because bodies can contain email addresses or other
/// details that should not be surfaced through logs or UI error strings.
#[derive(Clone, Copy, Debug, Eq, PartialEq, Structural)]
pub enum ReferralError {
    ChatGptAuthenticationRequired,
    UserIdUnavailable,
    AccountIdUnavailable,
    AccountChanged,
    UnsupportedClient,
    RequestTimedOut,
    EligibilityRequestFailed { status_code: Option<u16> },
    RulesRequestFailed { status_code: Option<u16> },
    InviteRequestFailed { status_code: Option<u16> },
}

impl ReferralError {
    /// The text of the error for users.
    pub open spec fn message_text(self) -> Seq<char> {
        match self {
            ReferralError::ChatGptAuthenticationRequired =>
                "ChatGPT authentication is required for referral invites"@,
            ReferralError::UserIdUnavailable =>
                "the active ChatGPT user could not be determined"@,
            ReferralError::AccountIdUnavailable =>
                "the active ChatGPT account could not be determined"@,
            ReferralError::AccountChanged =>
                "the active ChatGPT account changed; review the referral offer again"@,
            ReferralError::UnsupportedClient =>
                "referral invites are unavailable for this client session"@,
            ReferralError::RequestTimedOut => "the referral request timed out"@,
            ReferralError::EligibilityRequestFailed { .. } =>
                "referral invite eligibility could not be checked"@,
            ReferralError::RulesRequestFailed { .. } =>
                "referral invite terms could not be loaded"@,
            ReferralError::InviteRequestFailed { .. } => "the referral invite could not be sent"@,
        }
    }

    /// The text of the error for users.
    pub fn message(&self) -> (message: &'static str)
        ensures
            message@ == self.message_text(),
    {
        match self {
            ReferralError::ChatGptAuthenticationRequired =>
                "ChatGPT authentication is required for referral invites",
            ReferralError::UserIdUnavailable => "the active ChatGPT user could not be determined",
            ReferralError::AccountIdUnavailable =>
                "the active ChatGPT account could not be determined",
            ReferralError::AccountChanged =>
                "the active ChatGPT account changed; review the referral offer again",
            ReferralError::UnsupportedClient =>
                "referral invites are unavailable for this client session",
            ReferralError::RequestTimedOut => "the referral request timed out",
            ReferralError::EligibilityRequestFailed { .. } =>
                "referral invite eligibility could not be checked",
            ReferralError::RulesRequestFailed { .. } => "referral invite terms could not be loaded",
            ReferralError::InviteRequestFailed { .. } => "the referral invite could not be sent",
        }
    }
}

/// What users are told of each error. The status of a failed request is not part of it.
pub proof fn lemma_what_users_are_told(status_code: Option<u16>)
    ensures
        ReferralError::ChatGptAuthenticationRequired.message_text()
            == "ChatGPT authentication is required for referral invites"@,
        ReferralError::UserIdUnavailable.message_text()
            == "the active ChatGPT user could not be determined"@,
        ReferralError::AccountIdUnavailable.message_text()
            == "the active ChatGPT account could not be determined"@,
        ReferralError::AccountChanged.message_text()
            == "the active ChatGPT account changed; review the referral offer again"@,
        ReferralError::UnsupportedClient.message_text()
            == "referral invites are unavailable for this client session"@,
        ReferralError::RequestTimedOut.message_text() == "the referral request timed out"@,
        (ReferralError::EligibilityRequestFailed { status_code }).message_text()
            == "referral invite eligibility could not be checked"@,
        (ReferralError::RulesRequestFailed { status_code }).message_text()
            == "referral invite terms could not be loaded"@,
        (ReferralError::InviteRequestFailed { status_code }).message_text()
            == "the referral invite could not be sent"@,
{
}

} // verus!
