use codex_flows::app_event::{
    redacted_referral_event_variant, AppEvent, ReferralInviteRewardStatus,
};
use codex_flows::referral::{
    PersistentReferralInviteEligibility, PersistentReferralInviteOffer, ReferralEligibilityRules,
    ReferralError, ReferralGrantAction, ReferralIdentity,
};
use codex_flows::referral_confirmation::{
    referral_confirmation_header, referral_reward_description, ReferralConfirmationBody,
    ReferralConfirmationSection, WrapRequest,
};
use codex_flows::referral_widget::{
    email_entered, is_definite_referral_rejection_status, referral_send_error_message,
    refreshed_usage_menu, ChatWidget, DismissedView, REFERRAL_INVITE_VIEW_ID,
};
use codex_flows::selection_view::{SelectionItem, SelectionViewParams, TextPrompt};

fn referral_identity() -> ReferralIdentity {
    ReferralIdentity::new("user-1".to_string(), "account-1".to_string())
}

fn referral_offer() -> PersistentReferralInviteOffer {
    PersistentReferralInviteOffer {
        expected_identity: referral_identity(),
        eligibility: PersistentReferralInviteEligibility {
            should_show: true,
            ineligible_reason: None,
            ineligible_reason_code: None,
            remaining_referrals: Some(2),
            grant_action: ReferralGrantAction::RateLimitResetCredit,
            grant_amount: 1,
            has_rewards: true,
            title: None,
            description: None,
        },
        rules: ReferralEligibilityRules {
            rules: vec!["They must be new to Codex.".to_string()],
            requires_explicit_confirmation: true,
        },
    }
}

fn widget_with_offer() -> ChatWidget {
    let mut widget = ChatWidget::new(true);
    widget.referral_invite_offer = Some(referral_offer());
    widget
}

/// The events that selecting the entry at `index` sends.
fn select(view: SelectionViewParams, index: usize) -> Vec<AppEvent> {
    view.items
        .into_iter()
        .nth(index)
        .expect("an entry to select")
        .actions
}

fn names(view: &SelectionViewParams) -> Vec<&str> {
    view.items.iter().map(|item| item.name.as_str()).collect()
}

#[test]
fn referral_offer_appears_in_usage_without_moving_selection() {
    let mut widget = ChatWidget::new(true);
    let request_id = match widget.start_referral_invite_offer_refresh() {
        Some(AppEvent::RefreshReferralInviteOffer { request_id }) => request_id,
        _ => panic!("expected referral offer refresh"),
    };
    assert_eq!(widget.referral_invite_menu_item(), None);

    assert!(widget.finish_referral_invite_offer_refresh(request_id, Ok(Some(referral_offer()))));
    assert_eq!(
        widget.referral_invite_menu_item(),
        Some(SelectionItem {
            name: "Invite someone to Codex".to_string(),
            description: Some(
                "You and the recipient can each earn a usage limit reset.".to_string()
            ),
            actions: vec![AppEvent::OpenReferralInviteEmailPrompt {
                initial_email: None
            }],
            is_disabled: false,
            dismiss_on_select: true,
        })
    );
    let mut menu = SelectionViewParams::default();
    menu.title = Some("Usage".to_string());
    let menu = refreshed_usage_menu(menu, Some(1));
    assert_eq!(menu.initial_selected_idx, Some(1));
    assert_eq!(menu.title.as_deref(), Some("Usage"));
}

#[test]
fn referral_email_and_confirmation_require_an_explicit_send_selection() {
    let widget = widget_with_offer();
    assert_eq!(
        widget.show_referral_invite_email_prompt(None),
        TextPrompt {
            view_id: Some("referral-invite"),
            title: "Invite someone to Codex".to_string(),
            placeholder: "name@example.com".to_string(),
            initial_text: String::new(),
            context_label: Some("Enter one email address, then press Enter.".to_string()),
        }
    );
    assert_eq!(
        email_entered("friend@example.com"),
        AppEvent::OpenReferralInviteConfirmation {
            email: "friend@example.com".to_string()
        }
    );

    let confirmation = widget.show_referral_invite_confirmation("friend@example.com".to_string());
    assert_eq!(confirmation.view_id, Some(REFERRAL_INVITE_VIEW_ID));
    assert_eq!(names(&confirmation), vec!["Send invite", "Cancel"]);
    let selected = confirmation.initial_selected_idx.unwrap();
    assert_eq!(
        select(confirmation, selected),
        Vec::new(),
        "Cancel must be selected by default"
    );

    let confirmation = widget.show_referral_invite_confirmation("friend@example.com".to_string());
    assert!(confirmation.has_standard_hint);
    assert!(confirmation.allow_cancel);
    assert_eq!(
        select(confirmation, 0),
        vec![AppEvent::SendReferralInvite {
            email: "friend@example.com".to_string()
        }]
    );
}

#[test]
fn referral_send_is_noncancelable_and_shows_success() {
    let mut widget = widget_with_offer();
    let (request_id, expected_identity, view) = widget
        .start_referral_invite_send("friend@example.com")
        .expect("eligible offer should start send");
    assert_eq!(expected_identity, referral_identity());
    assert!(!view.allow_cancel);
    assert_eq!(view.view_id, Some("referral-invite"));
    assert_eq!(
        view.subtitle.as_deref(),
        Some("Sending an invite to friend@example.com...")
    );
    assert_eq!(names(&view), vec!["Sending invite..."]);
    assert!(view.items[0].is_disabled);

    let sent = widget
        .finish_referral_invite_send(
            request_id,
            "friend@example.com",
            Ok(ReferralInviteRewardStatus::Included),
        )
        .expect("the awaited result counts");
    assert_eq!(
        sent.subtitle.as_deref(),
        Some("Invite sent to friend@example.com.")
    );
    assert_eq!(names(&sent), vec!["Close"]);
    assert_eq!(widget.referral_invite_offer, None);

    for (status, message) in [
        (
            ReferralInviteRewardStatus::NotIncluded,
            "Invite sent to friend@example.com, but this invite did not include a reward.",
        ),
        (
            ReferralInviteRewardStatus::Unknown,
            "Invite sent to friend@example.com; reward status wasn't confirmed.",
        ),
    ] {
        widget.referral_invite_offer = Some(referral_offer());
        let (request_id, _, _) = widget
            .start_referral_invite_send("friend@example.com")
            .expect("eligible offer should start send");
        let sent = widget
            .finish_referral_invite_send(request_id, "friend@example.com", Ok(status))
            .expect("the awaited result counts");
        assert_eq!(sent.subtitle.as_deref(), Some(message));
    }
}

#[test]
fn ambiguous_referral_send_failure_does_not_offer_retry() {
    let mut widget = widget_with_offer();
    let (request_id, _, _) = widget
        .start_referral_invite_send("friend@example.com")
        .expect("eligible offer should start send");
    let view = widget
        .finish_referral_invite_send(
            request_id,
            "friend@example.com",
            Err(ReferralError::RequestTimedOut),
        )
        .expect("the awaited result counts");
    assert_eq!(names(&view), vec!["Close"]);

    let (request_id, _, _) = widget
        .start_referral_invite_send("friend@example.com")
        .expect("eligible offer should remain available");
    let view = widget
        .finish_referral_invite_send(
            request_id,
            "friend@example.com",
            Err(ReferralError::InviteRequestFailed {
                status_code: Some(408),
            }),
        )
        .expect("the awaited result counts");
    assert!(!names(&view).contains(&"Edit email"));
    assert!(view.subtitle.unwrap().contains("couldn't confirm"));
}

#[test]
fn definite_referral_send_failure_can_edit_the_original_email() {
    let mut widget = widget_with_offer();
    let (request_id, _, _) = widget
        .start_referral_invite_send("friend@example.com")
        .expect("eligible offer should start send");
    let view = widget
        .finish_referral_invite_send(
            request_id,
            "friend@example.com",
            Err(ReferralError::InviteRequestFailed {
                status_code: Some(400),
            }),
        )
        .expect("the awaited result counts");
    assert_eq!(names(&view), vec!["Edit email", "Close"]);
    assert_eq!(
        select(view, 0),
        vec![AppEvent::OpenReferralInviteEmailPrompt {
            initial_email: Some("friend@example.com".to_string())
        }]
    );
    let kept = widget.referral_invite_offer.clone();
    assert_eq!(kept, Some(referral_offer()));
}

#[test]
fn account_change_dismisses_referral_views_and_stale_results() {
    let mut widget = widget_with_offer();
    let (request_id, _, _) = widget
        .start_referral_invite_send("friend@example.com")
        .expect("eligible offer should start send");

    widget.has_chatgpt_account = false;
    assert_eq!(
        widget.clear_pending_referral_invite_requests(),
        [DismissedView::UsageMenu, DismissedView::ReferralInvite]
    );

    assert_eq!(
        widget.finish_referral_invite_send(
            request_id,
            "friend@example.com",
            Ok(ReferralInviteRewardStatus::Included),
        ),
        None
    );
    assert_eq!(widget.start_referral_invite_offer_refresh(), None);
    assert_eq!(widget.pending_referral_offer_request_id, None);
}

#[test]
fn stale_offers_are_ignored() {
    let mut widget = ChatWidget::new(true);
    assert!(widget.begin_offer_refresh(1).is_some());
    assert_eq!(
        widget.begin_offer_refresh(2),
        Some(AppEvent::RefreshReferralInviteOffer { request_id: 2 })
    );
    assert!(!widget.finish_referral_invite_offer_refresh(1, Ok(Some(referral_offer()))));
    assert_eq!(widget.referral_invite_offer, None);
    assert!(widget.finish_referral_invite_offer_refresh(2, Err(ReferralError::RequestTimedOut)));
    assert_eq!(widget.referral_invite_offer, None);
    assert!(!widget.finish_referral_invite_offer_refresh(2, Ok(Some(referral_offer()))));
    assert_eq!(widget.referral_invite_offer, None);
}

#[test]
fn request_ids_are_random() {
    let mut widget = ChatWidget::new(true);
    widget.start_referral_invite_offer_refresh();
    let first = widget.pending_referral_offer_request_id.unwrap();
    widget.start_referral_invite_offer_refresh();
    let second = widget.pending_referral_offer_request_id.unwrap();
    assert_ne!(first, second);
    for id in [first, second] {
        assert_eq!((id >> 76) & 0xf, 4);
        assert_eq!((id >> 62) & 0x3, 2);
    }
}

#[test]
fn without_an_offer_nothing_can_be_sent() {
    let mut widget = ChatWidget::new(true);
    assert!(widget.start_referral_invite_send("friend@example.com").is_none());
    assert_eq!(widget.pending_referral_send_request_id, None);
    let view = widget.show_referral_invite_confirmation("friend@example.com".to_string());
    assert_eq!(
        view.subtitle.as_deref(),
        Some("This referral offer is no longer available. Reopen /usage to check again.")
    );
    assert_eq!(names(&view), vec!["Close"]);
    assert_eq!(
        widget.show_referral_invite_message("Later.").subtitle.as_deref(),
        Some("Later.")
    );
}

#[test]
fn entered_emails_are_trimmed() {
    for entered in [
        "friend@example.com",
        "  friend@example.com\n",
        "\u{a0}\tfriend@example.com\u{3000}",
    ] {
        assert_eq!(
            email_entered(entered),
            AppEvent::OpenReferralInviteConfirmation {
                email: "friend@example.com".to_string()
            }
        );
    }
    assert_eq!(
        email_entered(" \t "),
        AppEvent::OpenReferralInviteConfirmation {
            email: String::new()
        }
    );
    assert_eq!(
        widget_with_offer()
            .show_referral_invite_email_prompt(Some("friend@example.com".to_string()))
            .initial_text,
        "friend@example.com"
    );
}

#[test]
fn every_white_space_character_is_trimmed() {
    for c in '\0'..=char::MAX {
        let entered = format!("{c}x{c}");
        let email = match email_entered(&entered) {
            AppEvent::OpenReferralInviteConfirmation { email } => email,
            other => panic!("unexpected event: {other:?}"),
        };
        let white_space = matches!(
            c as u32,
            0x9..=0xd
                | 0x20
                | 0x85
                | 0xa0
                | 0x1680
                | 0x2000..=0x200a
                | 0x2028
                | 0x2029
                | 0x202f
                | 0x205f
                | 0x3000
        );
        assert_eq!(email == "x", white_space);
        assert_eq!(email, entered.trim());
    }
}

#[test]
fn confirmations_list_what_the_sender_agrees_to() {
    let mut offer = referral_offer();
    let header = referral_confirmation_header(&offer, "friend@example.com");
    assert_eq!(header.title, "Send referral invite?");
    assert_eq!(
        header.body.sections,
        vec![
            ReferralConfirmationSection::Text(
                "You and the recipient can each earn a usage limit reset.".to_string()
            ),
            ReferralConfirmationSection::Text("Recipient: friend@example.com".to_string()),
            ReferralConfirmationSection::Rule("They must be new to Codex.".to_string()),
            ReferralConfirmationSection::Text(
                "By sending, you confirm that you have this person's consent.".to_string()
            ),
        ]
    );

    offer.eligibility.title = Some("Limited time offer".to_string());
    offer.rules.requires_explicit_confirmation = false;
    offer.rules.rules.clear();
    assert_eq!(
        referral_confirmation_header(&offer, "a@b").body.sections,
        vec![
            ReferralConfirmationSection::Text("Limited time offer".to_string()),
            ReferralConfirmationSection::Text(
                "You and the recipient can each earn a usage limit reset.".to_string()
            ),
            ReferralConfirmationSection::Text("Recipient: a@b".to_string()),
        ]
    );
}

#[test]
fn rewards_are_described_by_the_offer() {
    let mut offer = referral_offer();
    offer.eligibility.grant_amount = 12;
    assert_eq!(
        referral_reward_description(&offer),
        "You and the recipient can each earn 12 usage limit resets."
    );
    offer.eligibility.grant_action = ReferralGrantAction::WorkspaceCredits;
    offer.eligibility.grant_amount = 1;
    assert_eq!(
        referral_reward_description(&offer),
        "You and the recipient can each earn 1 workspace credits."
    );
    offer.eligibility.grant_action = ReferralGrantAction::Unknown;
    assert_eq!(
        referral_reward_description(&offer),
        "Send one rewarded Codex invite."
    );
    offer.eligibility.description = Some("You both receive a reset.".to_string());
    assert_eq!(
        referral_reward_description(&offer),
        "You both receive a reset."
    );
}

#[test]
fn rules_are_wrapped_as_list_entries() {
    let body = ReferralConfirmationBody {
        sections: vec![
            ReferralConfirmationSection::Text("Intro".to_string()),
            ReferralConfirmationSection::Rule("Rule".to_string()),
        ],
    };
    assert_eq!(
        body.wrap_requests(0),
        vec![
            WrapRequest {
                text: "Intro".to_string(),
                initial_indent: "",
                subsequent_indent: "",
                width: 1,
            },
            WrapRequest {
                text: "Rule".to_string(),
                initial_indent: "• ",
                subsequent_indent: "  ",
                width: 1,
            },
        ]
    );
    assert_eq!(body.wrap_requests(80)[1].width, 80);
    assert_eq!(
        ReferralConfirmationBody::wrapped_lines(vec![
            vec!["Intro".to_string()],
            Vec::new(),
            vec!["• Ru".to_string(), "  le".to_string()],
        ]),
        vec!["Intro", "• Ru", "  le"]
    );
    assert_eq!(ReferralConfirmationBody::desired_height(3), 3);
    assert_eq!(ReferralConfirmationBody::desired_height(65535), 65535);
    assert_eq!(ReferralConfirmationBody::desired_height(65536), 65535);
}

#[test]
fn rejections_are_definite_only_where_the_invite_was_not_sent() {
    for status in [400, 401, 403, 404, 422, 429, 498] {
        assert!(is_definite_referral_rejection_status(status));
    }
    for status in [200, 302, 399, 408, 499, 500, 503] {
        assert!(!is_definite_referral_rejection_status(status));
    }
}

#[test]
fn send_errors_tell_what_is_known() {
    let unconfirmed = "We couldn't confirm the invite. Ask the recipient before trying again.";
    let sign_in = "Sign in with ChatGPT, then reopen /usage to try again.";
    for (error, message) in [
        (
            ReferralError::AccountChanged,
            "Your account changed, so the invite was not sent. Reopen /usage to try again.",
        ),
        (ReferralError::ChatGptAuthenticationRequired, sign_in),
        (ReferralError::UserIdUnavailable, sign_in),
        (ReferralError::AccountIdUnavailable, sign_in),
        (
            ReferralError::UnsupportedClient,
            "Referral invites aren't available in this client session.",
        ),
        (
            ReferralError::InviteRequestFailed {
                status_code: Some(422),
            },
            "The invite wasn't sent. Check the email or your eligibility.",
        ),
        (
            ReferralError::InviteRequestFailed {
                status_code: Some(500),
            },
            unconfirmed,
        ),
        (
            ReferralError::InviteRequestFailed { status_code: None },
            unconfirmed,
        ),
        (ReferralError::RequestTimedOut, unconfirmed),
        (
            ReferralError::EligibilityRequestFailed {
                status_code: Some(400),
            },
            unconfirmed,
        ),
        (
            ReferralError::RulesRequestFailed {
                status_code: Some(400),
            },
            unconfirmed,
        ),
    ] {
        assert_eq!(referral_send_error_message(&error), message);
    }
}

#[test]
fn referral_event_variant_names_exclude_sensitive_values() {
    let cases = vec![
        (
            AppEvent::RefreshReferralInviteOffer { request_id: 0 },
            "RefreshReferralInviteOffer",
        ),
        (
            AppEvent::ReferralInviteOfferLoaded {
                request_id: 0,
                result: Err(ReferralError::RequestTimedOut),
            },
            "ReferralInviteOfferLoaded",
        ),
        (
            AppEvent::OpenReferralInviteEmailPrompt {
                initial_email: Some("friend@example.com".to_string()),
            },
            "OpenReferralInviteEmailPrompt",
        ),
        (
            AppEvent::OpenReferralInviteConfirmation {
                email: "friend@example.com".to_string(),
            },
            "OpenReferralInviteConfirmation",
        ),
        (
            AppEvent::SendReferralInvite {
                email: "friend@example.com".to_string(),
            },
            "SendReferralInvite",
        ),
        (
            AppEvent::ReferralInviteSent {
                request_id: 0,
                email: "friend@example.com".to_string(),
                result: Err(ReferralError::RequestTimedOut),
            },
            "ReferralInviteSent",
        ),
    ];

    for (event, expected) in cases {
        let variant = redacted_referral_event_variant(&event);
        assert_eq!(variant, Some(expected));
        assert!(!variant.unwrap_or_default().contains("friend@example.com"));
    }
    assert_eq!(redacted_referral_event_variant(&AppEvent::Other), None);
}
