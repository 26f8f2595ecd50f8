use std::collections::BTreeMap;

use codex_flows::backend_client::{
    redact_referral_response_error, BackendRequest, Client, DecodeFailure, HttpMethod, PathStyle,
    RequestError,
};
use codex_flows::git_env::local_only_git_env;
use codex_flows::referral::{ReferralInvite, ReferralInviteResponse};

fn test_client(base_url: &str, path_style: PathStyle) -> Client {
    Client {
        base_url: base_url.to_string(),
        path_style,
    }
}

fn query_of(request: &BackendRequest) -> BTreeMap<String, String> {
    request.query.iter().cloned().collect()
}

#[test]
fn referral_requests_use_expected_paths_queries_and_body() {
    let chatgpt_client = test_client("https://chatgpt.com/backend-api", PathStyle::ChatGptApi);

    let eligibility_request = chatgpt_client
        .persistent_referral_invite_eligibility_request()
        .unwrap();
    assert_eq!(
        eligibility_request.url,
        "https://chatgpt.com/backend-api/referrals/invite/eligibility"
    );
    assert_eq!(eligibility_request.method, HttpMethod::Get);
    assert_eq!(
        query_of(&eligibility_request),
        BTreeMap::from([
            (
                "referral_key".to_string(),
                "codex_referral_persistent_invite".to_string(),
            ),
            ("requested_referrals".to_string(), "1".to_string()),
            (
                "supports_rewardless_invites".to_string(),
                "false".to_string(),
            ),
        ])
    );
    assert_eq!(eligibility_request.body, None);
    assert_eq!(eligibility_request.content_type, None);

    let rules_request = chatgpt_client.persistent_referral_invite_eligibility_rules_request();
    assert_eq!(
        rules_request.url,
        "https://chatgpt.com/backend-api/wham/referrals/eligibility_rules"
    );
    assert_eq!(rules_request.method, HttpMethod::Get);
    assert_eq!(
        query_of(&rules_request),
        BTreeMap::from([(
            "referral_key".to_string(),
            "codex_referral_persistent_invite".to_string(),
        )])
    );

    let invite_request =
        chatgpt_client.create_persistent_referral_invite_request("friend@example.com");
    assert_eq!(
        invite_request.url,
        "https://chatgpt.com/backend-api/wham/referrals/invite"
    );
    assert_eq!(invite_request.method, HttpMethod::Post);
    assert_eq!(invite_request.content_type, Some("application/json"));
    let body: serde_json::Value = serde_json::from_str(&invite_request.body.unwrap()).unwrap();
    let fields = body.as_object().unwrap();
    assert_eq!(fields.len(), 2);
    assert_eq!(
        fields["referral_key"],
        serde_json::Value::from("codex_referral_persistent_invite")
    );
    assert_eq!(
        fields["emails"],
        serde_json::Value::from(vec!["friend@example.com"])
    );

    let codex_client = test_client("https://example.test", PathStyle::CodexApi);
    assert_eq!(
        codex_client
            .persistent_referral_invite_eligibility_rules_request()
            .url,
        "https://example.test/api/codex/referrals/eligibility_rules"
    );
    assert_eq!(
        codex_client
            .create_persistent_referral_invite_request("friend@example.com")
            .url,
        "https://example.test/api/codex/referrals/invite"
    );
}

#[test]
fn eligibility_is_unsupported_for_codex_api_base_urls() {
    let client = test_client("https://example.test", PathStyle::CodexApi);
    let Err(error) = client.persistent_referral_invite_eligibility_request() else {
        panic!("Codex API eligibility request unexpectedly succeeded");
    };
    assert_eq!(
        error.message(),
        "persistent referral invite eligibility requires a ChatGPT backend-api base URL"
    );
    assert_eq!(error.status(), None);
}

#[test]
fn invite_bodies_escape_the_email() {
    let client = test_client("https://chatgpt.com/backend-api", PathStyle::ChatGptApi);
    let request =
        client.create_persistent_referral_invite_request("\"odd\\\u{1}\u{8}\t\n\u{c}\r\u{1f}é\"@x");
    let body = request.body.unwrap();
    assert_eq!(
        body,
        "{\"referral_key\":\"codex_referral_persistent_invite\",\"emails\":[\"\\\"odd\\\\\\u0001\\b\\t\\n\\f\\r\\u001fé\\\"@x\"]}"
    );
    let parsed: serde_json::Value = serde_json::from_str(&body).unwrap();
    assert_eq!(
        parsed["emails"][0],
        serde_json::Value::from("\"odd\\\u{1}\u{8}\t\n\u{c}\r\u{1f}é\"@x")
    );
}

#[test]
fn decoded_invites_are_handed_on() {
    let client = test_client("https://chatgpt.com/backend-api", PathStyle::ChatGptApi);
    let response = || ReferralInviteResponse {
        referral_id: "ref-123".to_string(),
        email: "friend@example.com".to_string(),
        invites: vec![ReferralInvite {
            referral_id: "ref-123".to_string(),
            email: "friend@example.com".to_string(),
            invite_url: "https://chatgpt.com/referrals/ref-123".to_string(),
        }],
        has_rewards: None,
    };
    assert_eq!(
        client.decode_referral_invite_response(
            "https://chatgpt.com/backend-api/wham/referrals/invite",
            "application/json",
            Ok(response()),
        ),
        Ok(response())
    );
}

fn decode_failure(error: &serde_json::Error) -> DecodeFailure {
    DecodeFailure {
        complaint: error.to_string(),
        line: error.line() as u64,
        column: error.column() as u64,
    }
}

/// The error text for a response whose decoder met the given error.
fn rendered_decode_error(error: &serde_json::Error) -> String {
    test_client("https://chatgpt.com/backend-api", PathStyle::ChatGptApi)
        .decode_referral_invite_response(
            "https://chatgpt.com/backend-api/wham/referrals/invite",
            "application/json",
            Err(decode_failure(error)),
        )
        .unwrap_err()
        .message()
}

#[test]
fn referral_invite_decode_error_omits_response_body() {
    let error = serde_json::from_str::<serde_json::Value>(
        r#"{"email":"friend@example.com","invites":not-json}"#,
    )
    .unwrap_err();
    let rendered = rendered_decode_error(&error);

    assert!(!rendered.contains("friend@example.com"));
    assert!(rendered.contains("response body omitted"));
}

#[test]
fn mistyped_strings_are_not_quoted_in_decode_errors() {
    let nested =
        serde_json::from_str::<BTreeMap<String, Vec<String>>>(r#"{"invites":"a@b.c"}"#).unwrap_err();
    let whole = serde_json::from_str::<Vec<String>>(r#""a@b.c""#).unwrap_err();
    for error in [nested, whole] {
        assert!(error.to_string().contains("a@b.c"));
        let rendered = rendered_decode_error(&error);
        assert!(!rendered.contains("a@b.c"));
        assert!(!rendered.contains('@'));
        assert!(rendered.contains("invalid data at line 1 column "));
        assert!(rendered.contains("response body omitted"));
    }
}

#[test]
fn decode_errors_tell_complaints_that_quote_nothing() {
    let rendered = |complaint: &str| {
        format!(
            "Decode error for https://chatgpt.com/backend-api/wham/referrals/invite: {complaint}; content-type=application/json; response body omitted because it can contain referral email addresses"
        )
    };
    let empty = serde_json::from_str::<serde_json::Value>("").unwrap_err();
    assert_eq!(
        rendered_decode_error(&empty),
        rendered("EOF while parsing a value at line 1 column 0")
    );
    let mistyped = serde_json::from_str::<Vec<String>>("[3]").unwrap_err();
    assert_eq!(
        rendered_decode_error(&mistyped),
        rendered("invalid type: integer `3`, expected a string at line 1 column 2")
    );
    let quoting = serde_json::from_str::<Vec<u8>>("[\n\"hello\"]").unwrap_err();
    assert_eq!(
        rendered_decode_error(&quoting),
        rendered("invalid data at line 2 column 7")
    );
}

#[test]
fn referral_invite_http_error_omits_response_body() {
    let error = redact_referral_response_error(RequestError::UnexpectedStatus {
        method: "POST".to_string(),
        url: "https://chatgpt.com/backend-api/wham/referrals/invite".to_string(),
        status: 400,
        content_type: "application/json".to_string(),
        body: r#"{"failed_emails":["friend@example.com"]}"#.to_string(),
    });
    let rendered = error.message();

    assert_eq!(error.status(), Some(400));
    assert!(!rendered.contains("friend@example.com"));
    assert!(rendered.contains("body=omitted"));
}

#[test]
fn redaction_leaves_other_errors_alone() {
    let error = RequestError::Other("connection refused".to_string());
    assert_eq!(
        redact_referral_response_error(error),
        RequestError::Other("connection refused".to_string())
    );
}

#[test]
fn local_only_git_commands_deny_every_transport() {
    assert_eq!(
        local_only_git_env(),
        [("GIT_ALLOW_PROTOCOL", ""), ("GIT_NO_LAZY_FETCH", "1")]
    );
}
