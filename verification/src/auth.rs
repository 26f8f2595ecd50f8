//! The part of a sign-in that the client flows read.
use vstd::prelude::*;

use crate::text::optional_text;

verus! {

/// The account behind the credentials in use.
#[derive(Clone, Debug, Eq, PartialEq)]
pub struct AccountAuth {
    /// Whether the credentials come from a ChatGPT sign-in.
    pub is_chatgpt_auth: bool,
    pub chatgpt_user_id: Option<String>,
    /// The active workspace or account.
    pub account_id: Option<String>,
    /// Name of the account's plan.
    pub plan_type: Option<String>,
    /// Name of the way in which requests authenticate.
    pub auth_mode: String,
}

/// The value of an [`AccountAuth`].
pub struct AccountAuthView {
    pub is_chatgpt_auth: bool,
    pub chatgpt_user_id: Option<Seq<char>>,
    pub account_id: Option<Seq<char>>,
    pub plan_type: Option<Seq<char>>,
    pub auth_mode: Seq<char>,
}

impl View for AccountAuth {
    type V = AccountAuthView;

    open spec fn view(&self) -> AccountAuthView {
        AccountAuthView {
            is_chatgpt_auth: self.is_chatgpt_auth,
            chatgpt_user_id: optional_text(self.chatgpt_user_id),
            account_id: optional_text(self.account_id),
            plan_type: optional_text(self.plan_type),
            auth_mode: self.auth_mode@,
        }
    }
}

/// The value of optional credentials.
pub open spec fn optional_auth(auth: Option<&AccountAuth>) -> Option<AccountAuthView> {
    match auth {
        Some(auth) => Some(auth@),
        None => None,
    }
}

} // verus!
