use codex_flows::auth::AccountAuth;
use codex_flows::backend_client::{redact_referral_response_error, RequestError};
use codex_flows::referral::{
    PersistentReferralInviteEligibility, PersistentReferralInviteOffer, ReferralEligibilityRules,
    ReferralError, ReferralGrantAction, ReferralIdentity, ReferralInvite, ReferralInviteResponse,
};
use codex_flows::referral_session::{
    eligibility_received, invite_sent, rules_received, EligibilityStep, ReferralRequestFailure,
    ReferralSession, RequestEvent, RequestPhase,
};

fn chatgpt_auth(user_id: &str, account_id: &str) -> AccountAuth {
    AccountAuth {
        is_chatgpt_auth: true,
        chatgpt_user_id: Some(user_id.to_string()),
        account_id: Some(account_id.to_string()),
        plan_type: Some("pro".to_string()),
        auth_mode: "chatgpt".to_string(),
    }
}

fn identity(user_id: &str, account_id: &str) -> ReferralIdentity {
    ReferralIdentity::new(user_id.to_string(), account_id.to_string())
}

fn status_error(status: u16, body: &str) -> RequestError {
    redact_referral_response_error(RequestError::UnexpectedStatus {
        method: "POST".to_string(),
        url: "https://chatgpt.com/backend-api/wham/referrals/invite".to_string(),
        status,
        content_type: "application/json".to_string(),
        body: body.to_string(),
    })
}

fn eligibility_response() -> PersistentReferralInviteEligibility {
    PersistentReferralInviteEligibility {
        should_show: true,
        ineligible_reason: None,
        ineligible_reason_code: None,
        remaining_referrals: Some(1),
        grant_action: ReferralGrantAction::RateLimitResetCredit,
        grant_amount: 1,
        has_rewards: true,
        title: Some("Limited time offer".to_string()),
        description: Some("You both receive a reset.".to_string()),
    }
}

fn invite_response() -> ReferralInviteResponse {
    ReferralInviteResponse {
        referral_id: "referral-1".to_string(),
        email: "friend@example.com".to_string(),
        invites: vec![ReferralInvite {
            referral_id: "referral-1".to_string(),
            email: "friend@example.com".to_string(),
            invite_url: "https://chatgpt.com/invite/referral-1".to_string(),
        }],
        has_rewards: Some(true),
    }
}

/// Runs a request to its end. Each attempt loads the next credentials and, if it is sent, takes the
/// next response; `recoveries` says what each refresh comes to. Returns the outcome and how many
/// attempts were sent.
fn run<T>(
    session: &ReferralSession,
    expected: Option<&ReferralIdentity>,
    credentials: Vec<Option<AccountAuth>>,
    responses: Vec<Result<T, RequestError>>,
    recoveries: Vec<bool>,
) -> (Result<(T, ReferralIdentity), ReferralRequestFailure>, usize) {
    let mut credentials = credentials.into_iter();
    let mut responses = responses.into_iter();
    let mut recoveries = recoveries.into_iter();
    let mut sent = 0;
    let mut phase = RequestPhase::LoadAuth;
    loop {
        phase = match phase {
            RequestPhase::LoadAuth => {
                let auth = credentials.next().expect("credentials for the attempt");
                RequestPhase::LoadAuth.advance(
                    session,
                    expected,
                    RequestEvent::AuthLoaded(auth.as_ref()),
                )
            }
            RequestPhase::BuildClient { identity } => RequestPhase::BuildClient { identity }
                .advance(session, expected, RequestEvent::ClientBuilt(true)),
            RequestPhase::Send { identity } => {
                sent += 1;
                let response = responses.next().expect("response for the attempt");
                RequestPhase::Send { identity }.advance(
                    session,
                    expected,
                    RequestEvent::Responded(response),
                )
            }
            RequestPhase::Recover => {
                let recovered = recoveries.next().unwrap_or(false);
                RequestPhase::Recover.advance(session, expected, RequestEvent::Recovered(recovered))
            }
            RequestPhase::Done(outcome) => return (outcome, sent),
        };
    }
}

#[test]
fn external_auth_changes_require_explicit_reload() {
    let auth_a = chatgpt_auth("user-a", "account-a");
    let auth_b = chatgpt_auth("user-b", "account-b");
    let mut session = ReferralSession::from_auth_manager(
        Some(&auth_a),
        "http://unused.invalid/backend-api".to_string(),
    );
    assert_eq!(session.chatgpt_base_url(), "http://unused.invalid/backend-api");
    let identity_a = session.load_chatgpt_auth(Some(&auth_a)).unwrap();
    assert_eq!(identity_a, identity("user-a", "account-a"));

    // The cached credentials stay in use until the session is synced with the new ones.
    assert_eq!(session.load_chatgpt_auth(Some(&auth_a)), Ok(identity_a));
    assert_eq!(
        session.load_chatgpt_auth(Some(&auth_b)),
        Err(ReferralError::AccountChanged)
    );

    session.sync_identity(Some(&auth_b));
    assert_eq!(
        session.load_chatgpt_auth(Some(&auth_b)),
        Ok(identity("user-b", "account-b"))
    );
}

#[test]
fn user_identity_mismatch_blocks_invite_before_network() {
    let auth = chatgpt_auth("user-b", "shared-account");
    let session = ReferralSession::from_auth_manager(
        Some(&auth),
        "https://chatgpt.com/backend-api".to_string(),
    );
    let expected = identity("user-a", "shared-account");
    let (outcome, sent) = run(
        &session,
        Some(&expected),
        vec![Some(auth)],
        vec![Ok(invite_response())],
        Vec::new(),
    );
    assert_eq!(invite_sent(outcome), Err(ReferralError::AccountChanged));
    assert_eq!(sent, 0);
}

#[test]
fn gated_eligibility_is_hidden() {
    let auth = chatgpt_auth("user-a", "account-a");
    let session = ReferralSession::from_auth_manager(Some(&auth), String::new());
    let (outcome, sent) = run(
        &session,
        None,
        vec![Some(auth)],
        vec![Err(status_error(403, ""))],
        Vec::new(),
    );
    assert_eq!(sent, 1);
    assert_eq!(
        eligibility_received(outcome),
        EligibilityStep::Return(Ok(None))
    );
}

#[test]
fn gated_rules_are_hidden() {
    let auth = chatgpt_auth("user-a", "account-a");
    let session = ReferralSession::from_auth_manager(Some(&auth), String::new());
    let (outcome, _) = run(
        &session,
        None,
        vec![Some(auth.clone())],
        vec![Ok(eligibility_response())],
        Vec::new(),
    );
    let (eligibility, owner) = match eligibility_received(outcome) {
        EligibilityStep::LoadRules {
            eligibility,
            identity,
        } => (eligibility, identity),
        other => panic!("unexpected step: {other:?}"),
    };
    let (rules, sent) = run(
        &session,
        Some(&owner),
        vec![Some(auth)],
        vec![Err::<ReferralEligibilityRules, _>(status_error(403, ""))],
        Vec::new(),
    );
    assert_eq!(sent, 1);
    assert_eq!(
        rules_received(eligibility, owner.clone(), rules),
        Ok(None)
    );
}

#[test]
fn offers_name_the_account_they_were_loaded_for() {
    let rules = || ReferralEligibilityRules {
        rules: vec!["They must be new to Codex.".to_string()],
        requires_explicit_confirmation: true,
    };
    let owner = identity("user-a", "account-a");
    assert_eq!(
        rules_received(
            eligibility_response(),
            owner.clone(),
            Ok((rules(), owner.clone())),
        ),
        Ok(Some(PersistentReferralInviteOffer {
            expected_identity: owner,
            eligibility: eligibility_response(),
            rules: rules(),
        }))
    );
}

#[test]
fn hidden_eligibility_is_no_offer() {
    let mut eligibility = eligibility_response();
    eligibility.should_show = false;
    assert_eq!(
        eligibility_received(Ok((eligibility, identity("user-a", "account-a")))),
        EligibilityStep::Return(Ok(None))
    );
}

#[test]
fn failed_loads_expose_only_the_status() {
    assert_eq!(
        eligibility_received(Err(ReferralRequestFailure::Backend(status_error(
            500,
            "friend@example.com"
        )))),
        EligibilityStep::Return(Err(ReferralError::EligibilityRequestFailed {
            status_code: Some(500)
        }))
    );
    assert_eq!(
        eligibility_received(Err(ReferralRequestFailure::ClientBuild)),
        EligibilityStep::Return(Err(ReferralError::EligibilityRequestFailed {
            status_code: None
        }))
    );
    assert_eq!(
        eligibility_received(Err(ReferralRequestFailure::Session(
            ReferralError::UserIdUnavailable
        ))),
        EligibilityStep::Return(Err(ReferralError::UserIdUnavailable))
    );
    let owner = identity("user-a", "account-a");
    assert_eq!(
        rules_received(
            eligibility_response(),
            owner.clone(),
            Err(ReferralRequestFailure::Backend(RequestError::Other(
                "connection reset".to_string()
            ))),
        ),
        Err(ReferralError::RulesRequestFailed { status_code: None })
    );
    assert_eq!(
        rules_received(
            eligibility_response(),
            owner,
            Err(ReferralRequestFailure::Session(ReferralError::AccountChanged)),
        ),
        Err(ReferralError::AccountChanged)
    );
}

#[test]
fn invite_http_error_exposes_only_the_status() {
    let auth = chatgpt_auth("user-a", "account-a");
    let session = ReferralSession::from_auth_manager(Some(&auth), String::new());
    let expected = identity("user-a", "account-a");
    let (outcome, sent) = run(
        &session,
        Some(&expected),
        vec![Some(auth)],
        vec![Err(status_error(
            400,
            r#"{"failed_emails":["friend@example.com"]}"#,
        ))],
        Vec::new(),
    );
    let error = invite_sent(outcome).unwrap_err();

    assert_eq!(sent, 1);
    assert_eq!(
        error,
        ReferralError::InviteRequestFailed {
            status_code: Some(400)
        }
    );
    assert!(!error.message().contains("friend@example.com"));
    assert!(!format!("{error:?}").contains("friend@example.com"));
}

#[test]
fn unauthorized_response_reloads_same_identity_and_retries() {
    let auth = chatgpt_auth("user-a", "account-a");
    let session = ReferralSession::from_auth_manager(Some(&auth), String::new());
    let expected = identity("user-a", "account-a");
    let (outcome, sent) = run(
        &session,
        Some(&expected),
        vec![Some(auth.clone()), Some(auth)],
        vec![Err(status_error(401, "")), Ok(invite_response())],
        vec![true],
    );
    assert_eq!(
        invite_sent(outcome).expect("same-identity token reload should retry"),
        invite_response()
    );
    assert_eq!(sent, 2);
}

#[test]
fn unauthorized_response_does_not_install_or_retry_after_user_change() {
    let auth_a = chatgpt_auth("user-a", "shared-account");
    let session = ReferralSession::from_auth_manager(Some(&auth_a), String::new());
    let expected = identity("user-a", "shared-account");
    // Credentials of another user are not taken over by a refresh.
    let (outcome, sent) = run(
        &session,
        Some(&expected),
        vec![Some(auth_a.clone())],
        vec![Err(status_error(401, "")), Ok(invite_response())],
        vec![false],
    );
    assert_eq!(
        invite_sent(outcome),
        Err(ReferralError::ChatGptAuthenticationRequired)
    );
    assert_eq!(sent, 1);
    assert_eq!(
        ReferralSession::identity_from_auth(&auth_a),
        Ok(identity("user-a", "shared-account"))
    );
}

#[test]
fn a_refresh_that_brings_another_user_ends_the_request() {
    let auth_a = chatgpt_auth("user-a", "shared-account");
    let auth_b = chatgpt_auth("user-b", "shared-account");
    let session = ReferralSession::from_auth_manager(Some(&auth_a), String::new());
    let (outcome, sent) = run(
        &session,
        Some(&identity("user-a", "shared-account")),
        vec![Some(auth_a), Some(auth_b)],
        vec![Err(status_error(401, "")), Ok(invite_response())],
        vec![true],
    );
    assert_eq!(invite_sent(outcome), Err(ReferralError::AccountChanged));
    assert_eq!(sent, 1);
}

#[test]
fn identities_need_a_chatgpt_user_and_account() {
    let auth = chatgpt_auth("user-a", "account-a");
    assert_eq!(
        ReferralSession::load_unpinned_chatgpt_auth(None),
        Err(ReferralError::ChatGptAuthenticationRequired)
    );
    let api_key = AccountAuth {
        is_chatgpt_auth: false,
        ..auth.clone()
    };
    assert_eq!(
        ReferralSession::identity_from_auth(&api_key),
        Err(ReferralError::ChatGptAuthenticationRequired)
    );
    let without_user = AccountAuth {
        chatgpt_user_id: Some(String::new()),
        account_id: None,
        ..auth.clone()
    };
    assert_eq!(
        ReferralSession::identity_from_auth(&without_user),
        Err(ReferralError::UserIdUnavailable)
    );
    let without_account = AccountAuth {
        account_id: Some(String::new()),
        ..auth.clone()
    };
    assert_eq!(
        ReferralSession::identity_from_auth(&without_account),
        Err(ReferralError::AccountIdUnavailable)
    );
    let session = ReferralSession::from_auth_manager(Some(&api_key), String::new());
    assert_eq!(
        session.load_chatgpt_auth(Some(&auth)),
        Err(ReferralError::AccountChanged)
    );
}

#[test]
fn a_client_that_cannot_be_built_ends_the_request() {
    let auth = chatgpt_auth("user-a", "account-a");
    let session = ReferralSession::from_auth_manager(Some(&auth), String::new());
    let phase: RequestPhase<ReferralInviteResponse> =
        RequestPhase::LoadAuth.advance(&session, None, RequestEvent::AuthLoaded(Some(&auth)));
    let phase = phase.advance(&session, None, RequestEvent::ClientBuilt(false));
    match phase {
        RequestPhase::Done(outcome) => assert_eq!(
            invite_sent(outcome),
            Err(ReferralError::InviteRequestFailed { status_code: None })
        ),
        other => panic!("unexpected phase: {other:?}"),
    }
}

#[test]
fn unexpected_events_do_not_advance_a_request() {
    let session = ReferralSession::from_auth_manager(None, String::new());
    let phase: RequestPhase<()> =
        RequestPhase::LoadAuth.advance(&session, None, RequestEvent::Recovered(false));
    assert_eq!(phase, RequestPhase::LoadAuth);
}

#[test]
fn referral_errors_have_messages_for_users() {
    let messages = [
        (
            ReferralError::ChatGptAuthenticationRequired,
            "ChatGPT authentication is required for referral invites",
        ),
        (
            ReferralError::UserIdUnavailable,
            "the active ChatGPT user could not be determined",
        ),
        (
            ReferralError::AccountIdUnavailable,
            "the active ChatGPT account could not be determined",
        ),
        (
            ReferralError::AccountChanged,
            "the active ChatGPT account changed; review the referral offer again",
        ),
        (
            ReferralError::UnsupportedClient,
            "referral invites are unavailable for this client session",
        ),
        (
            ReferralError::RequestTimedOut,
            "the referral request timed out",
        ),
        (
            ReferralError::EligibilityRequestFailed { status_code: None },
            "referral invite eligibility could not be checked",
        ),
        (
            ReferralError::RulesRequestFailed {
                status_code: Some(500),
            },
            "referral invite terms could not be loaded",
        ),
        (
            ReferralError::InviteRequestFailed {
                status_code: Some(400),
            },
            "the referral invite could not be sent",
        ),
    ];
    for (error, message) in messages {
        assert_eq!(error.message(), message);
    }
}
