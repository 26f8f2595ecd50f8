//! Backend client operations for the persistent Codex referral invite.
use vstd::prelude::*;
use vstd::string::*;

use crate::json::{json_quoted, json_string};
use crate::referral::ReferralInviteResponse;
use crate::text::{decimal, decimal_string, holds_char, occurs_in, optional_text};

verus! {

/// How the backend lays out its paths.
#[derive(Clone, Copy, Debug, Eq, PartialEq, Structural)]
pub enum PathStyle {
    CodexApi,
    ChatGptApi,
}

/// A backend base URL and the path layout behind it.
#[derive(Debug, Eq, PartialEq)]
pub struct Client {
    pub base_url: String,
    pub path_style: PathStyle,
}

#[derive(Clone, Copy, Debug, Eq, PartialEq, Structural)]
pub enum HttpMethod {
    Get,
    Post,
}

/// A request to the backend. A body is JSON text.
#[derive(Debug, Eq, PartialEq)]
pub struct BackendRequest {
    pub method: HttpMethod,
    pub url: String,
    pub query: Vec<(String, String)>,
    /// What the body is.
    pub content_type: Option<&'static str>,
    pub body: Option<String>,
}

/// The value of a [`BackendRequest`].
pub struct BackendRequestView {
    pub method: HttpMethod,
    pub url: Seq<char>,
    pub query: Seq<(Seq<char>, Seq<char>)>,
    pub content_type: Option<Seq<char>>,
    pub body: Option<Seq<char>>,
}

impl View for BackendRequest {
    type V = BackendRequestView;

    open spec fn view(&self) -> BackendRequestView {
        BackendRequestView {
            method: self.method,
            url: self.url@,
            query: self.query@.map_values(|pair: (String, String)| (pair.0@, pair.1@)),
            content_type: match self.content_type {
                Some(content_type) => Some(content_type@),
                None => None,
            },
            body: optional_text(self.body),
        }
    }
}

/// A failed request to the backend.
#[derive(Debug, Eq, PartialEq)]
pub enum RequestError {
    UnexpectedStatus {
        method: String,
        url: String,
        status: u16,
        content_type: String,
        body: String,
    },
    Other(String),
}

/// The value of a [`RequestError`].
pub enum RequestErrorView {
    UnexpectedStatus {
        method: Seq<char>,
        url: Seq<char>,
        status: u16,
        content_type: Seq<char>,
        body: Seq<char>,
    },
    Other(Seq<char>),
}

impl View for RequestError {
    type V = RequestErrorView;

    open spec fn view(&self) -> RequestErrorView {
        match self {
            RequestError::UnexpectedStatus { method, url, status, content_type, body } =>
                RequestErrorView::UnexpectedStatus {
                    method: method@,
                    url: url@,
                    status: *status,
                    content_type: content_type@,
                    body: body@,
                },
            RequestError::Other(message) => RequestErrorView::Other(message@),
        }
    }
}

impl RequestErrorView {
    /// The HTTP status of the response, if there was one.
    pub open spec fn status(self) -> Option<u16> {
        match self {
            RequestErrorView::UnexpectedStatus { status, .. } => Some(status),
            RequestErrorView::Other(_) => None,
        }
    }

    /// The text of the error.
    pub open spec fn message_text(self) -> Seq<char> {
        match self {
            RequestErrorView::UnexpectedStatus { method, url, status, content_type, body } => method
                + " "@ + url + " failed: "@ + decimal(status as nat) + "; content-type="@
                + content_type + "; body="@ + body,
            RequestErrorView::Other(message) => message,
        }
    }

    /// The error without the response body.
    pub open spec fn redacted(self) -> RequestErrorView {
        match self {
            RequestErrorView::UnexpectedStatus { method, url, status, content_type, .. } =>
                RequestErrorView::UnexpectedStatus {
                    method,
                    url,
                    status,
                    content_type,
                    body: "omitted because it can contain referral email addresses"@,
                },
            RequestErrorView::Other(message) => RequestErrorView::Other(message),
        }
    }
}

impl RequestError {
    /// The HTTP status of the response, if there was one.
    pub fn status(&self) -> (status: Option<u16>)
        ensures
            status == self@.status(),
    {
        match self {
            RequestError::UnexpectedStatus { status, .. } => Some(*status),
            RequestError::Other(_) => None,
        }
    }

    /// The text of the error.
    pub fn message(&self) -> (message: String)
        ensures
            message@ == self@.message_text(),
    {
        match self {
            RequestError::UnexpectedStatus { method, url, status, content_type, body } =>
                method.clone().concat(" ").concat(url.as_str()).concat(" failed: ").concat(
                    decimal_string(*status as u64).as_str(),
                ).concat("; content-type=").concat(content_type.as_str()).concat("; body=").concat(
                    body.as_str(),
                ),
            RequestError::Other(message) => message.clone(),
        }
    }
}

/// A response that does not decode: what the decoder says of it, and where.
#[derive(Debug, Eq, PartialEq)]
pub struct DecodeFailure {
    pub complaint: String,
    pub line: u64,
    pub column: u64,
}

/// The value of a [`DecodeFailure`].
pub struct DecodeFailureView {
    pub complaint: Seq<char>,
    pub line: u64,
    pub column: u64,
}

impl View for DecodeFailure {
    type V = DecodeFailureView;

    open spec fn view(&self) -> DecodeFailureView {
        DecodeFailureView { complaint: self.complaint@, line: self.line, column: self.column }
    }
}

impl DecodeFailureView {
    /// Whether the complaint quotes a string of the response. Decoders show strings between double
    /// quotes; an `@` cannot come from anywhere but the response either.
    pub open spec fn quotes_response(self) -> bool {
        self.complaint.contains('"') || self.complaint.contains('@')
    }

    /// What may be told of the failure: the complaint, or only the place where it quotes a string of
    /// the response.
    pub open spec fn text(self) -> Seq<char> {
        if self.quotes_response() {
            "invalid data at line "@ + decimal(self.line as nat) + " column "@ + decimal(
                self.column as nat,
            )
        } else {
            self.complaint
        }
    }
}

impl DecodeFailure {
    /// What may be told of the failure.
    pub fn describe(&self) -> (description: String)
        ensures
            description@ == self@.text(),
    {
        if holds_char(self.complaint.as_str(), '"') || holds_char(self.complaint.as_str(), '@') {
            "invalid data at line ".to_owned().concat(decimal_string(self.line).as_str()).concat(
                " column ",
            ).concat(decimal_string(self.column).as_str())
        } else {
            self.complaint.clone()
        }
    }
}

/// The text of the error for an invite response that does not decode.
pub open spec fn decode_error_text(
    url: Seq<char>,
    content_type: Seq<char>,
    failure: DecodeFailureView,
) -> Seq<char> {
    "Decode error for "@ + url + ": "@ + failure.text() + "; content-type="@ + content_type
        + "; response body omitted because it can contain referral email addresses"@
}

/// The program under which persistent invites are filed.
pub const PERSISTENT_REFERRAL_INVITE_KEY: &'static str = "codex_referral_persistent_invite";

/// The body of an invite to one address.
pub open spec fn invite_body(email: Seq<char>) -> Seq<char> {
    "{\"referral_key\":"@ + json_quoted(PERSISTENT_REFERRAL_INVITE_KEY@) + ",\"emails\":["@
        + json_quoted(email) + "]}"@
}

/// The request for the eligibility; there is none behind a Codex API.
pub open spec fn eligibility_request(base_url: Seq<char>, path_style: PathStyle) -> Result<
    BackendRequestView,
    RequestErrorView,
> {
    match path_style {
        PathStyle::ChatGptApi => Ok(
            BackendRequestView {
                method: HttpMethod::Get,
                url: base_url + "/referrals/invite/eligibility"@,
                query: seq![
                    ("referral_key"@, PERSISTENT_REFERRAL_INVITE_KEY@),
                    ("requested_referrals"@, "1"@),
                    ("supports_rewardless_invites"@, "false"@),
                ],
                content_type: None,
                body: None,
            },
        ),
        PathStyle::CodexApi => Err(
            RequestErrorView::Other(
                "persistent referral invite eligibility requires a ChatGPT backend-api base URL"@,
            ),
        ),
    }
}

/// The request for the display rules.
pub open spec fn rules_request(base_url: Seq<char>, path_style: PathStyle) -> BackendRequestView {
    BackendRequestView {
        method: HttpMethod::Get,
        url: base_url + match path_style {
            PathStyle::CodexApi => "/api/codex/referrals/eligibility_rules"@,
            PathStyle::ChatGptApi => "/wham/referrals/eligibility_rules"@,
        },
        query: seq![("referral_key"@, PERSISTENT_REFERRAL_INVITE_KEY@)],
        content_type: None,
        body: None,
    }
}

/// The request that sends an invite.
pub open spec fn invite_request(
    base_url: Seq<char>,
    path_style: PathStyle,
    email: Seq<char>,
) -> BackendRequestView {
    BackendRequestView {
        method: HttpMethod::Post,
        url: base_url + match path_style {
            PathStyle::CodexApi => "/api/codex/referrals/invite"@,
            PathStyle::ChatGptApi => "/wham/referrals/invite"@,
        },
        query: Seq::empty(),
        content_type: Some("application/json"@),
        body: Some(invite_body(email)),
    }
}

fn push_pair(query: &mut Vec<(String, String)>, name: &str, value: &str)
    ensures
        final(query)@.len() == old(query)@.len() + 1,
        final(query)@.drop_last() == old(query)@,
        final(query)@.last().0@ == name@,
        final(query)@.last().1@ == value@,
{
    query.push((name.to_owned(), value.to_owned()));
    proof {
        assert(query@.drop_last() =~= old(query)@);
    }
}

impl Client {
    /// The request for the eligibility for one rewarded invite.
    ///
    /// Eligibility is only available through a ChatGPT backend-api base URL. Rewardless invites are
    /// deliberately excluded.
    pub fn persistent_referral_invite_eligibility_request(&self) -> (result: Result<
        BackendRequest,
        RequestError,
    >)
        ensures
            self.path_style == PathStyle::ChatGptApi <==> result is Ok,
            result matches Ok(request) ==> request@ == (BackendRequestView {
                method: HttpMethod::Get,
                url: self.base_url@ + "/referrals/invite/eligibility"@,
                query: seq![
                    ("referral_key"@, PERSISTENT_REFERRAL_INVITE_KEY@),
                    ("requested_referrals"@, "1"@),
                    ("supports_rewardless_invites"@, "false"@),
                ],
                content_type: None,
                body: None,
            }),
            result matches Err(error) ==> error@ == RequestErrorView::Other(
                "persistent referral invite eligibility requires a ChatGPT backend-api base URL"@,
            ),
            match result {
                Ok(request) => Ok(request@),
                Err(error) => Err(error@),
            } == eligibility_request(self.base_url@, self.path_style),
    {
        match self.path_style {
            PathStyle::ChatGptApi => {
                let mut query: Vec<(String, String)> = Vec::new();
                push_pair(&mut query, "referral_key", PERSISTENT_REFERRAL_INVITE_KEY);
                let ghost q1 = query@;
                push_pair(&mut query, "requested_referrals", "1");
                let ghost q2 = query@;
                push_pair(&mut query, "supports_rewardless_invites", "false");
                let request = BackendRequest {
                    method: HttpMethod::Get,
                    url: self.base_url.clone().concat("/referrals/invite/eligibility"),
                    query,
                    content_type: None,
                    body: None,
                };
                proof {
                    assert(query@[0] == q2[0] && q2[0] == q1[0] && query@[1] == q2[1]);
                    assert(request@.query =~= seq![
                        ("referral_key"@, PERSISTENT_REFERRAL_INVITE_KEY@),
                        ("requested_referrals"@, "1"@),
                        ("supports_rewardless_invites"@, "false"@),
                    ]);
                }
                Ok(request)
            },
            PathStyle::CodexApi => Err(
                RequestError::Other(
                    "persistent referral invite eligibility requires a ChatGPT backend-api base URL".to_owned(),
                ),
            ),
        }
    }

    /// The request for the display rules and the consent requirement.
    pub fn persistent_referral_invite_eligibility_rules_request(&self) -> (request: BackendRequest)
        ensures
            request@ == (BackendRequestView {
                method: HttpMethod::Get,
                url: self.base_url@ + match self.path_style {
                    PathStyle::CodexApi => "/api/codex/referrals/eligibility_rules"@,
                    PathStyle::ChatGptApi => "/wham/referrals/eligibility_rules"@,
                },
                query: seq![("referral_key"@, PERSISTENT_REFERRAL_INVITE_KEY@)],
                content_type: None,
                body: None,
            }),
            request@ == rules_request(self.base_url@, self.path_style),
    {
        let path = match self.path_style {
            PathStyle::CodexApi => "/api/codex/referrals/eligibility_rules",
            PathStyle::ChatGptApi => "/wham/referrals/eligibility_rules",
        };
        let mut query: Vec<(String, String)> = Vec::new();
        push_pair(&mut query, "referral_key", PERSISTENT_REFERRAL_INVITE_KEY);
        let request = BackendRequest {
            method: HttpMethod::Get,
            url: self.base_url.clone().concat(path),
            query,
            content_type: None,
            body: None,
        };
        proof {
            assert(request@.query =~= seq![("referral_key"@, PERSISTENT_REFERRAL_INVITE_KEY@)]);
        }
        request
    }

    /// The request that sends one email invite.
    pub fn create_persistent_referral_invite_request(&self, email: &str) -> (request:
        BackendRequest)
        ensures
            request@ == (BackendRequestView {
                method: HttpMethod::Post,
                url: self.base_url@ + match self.path_style {
                    PathStyle::CodexApi => "/api/codex/referrals/invite"@,
                    PathStyle::ChatGptApi => "/wham/referrals/invite"@,
                },
                query: Seq::empty(),
                content_type: Some("application/json"@),
                body: Some(invite_body(email@)),
            }),
            request@ == invite_request(self.base_url@, self.path_style, email@),
    {
        let path = match self.path_style {
            PathStyle::CodexApi => "/api/codex/referrals/invite",
            PathStyle::ChatGptApi => "/wham/referrals/invite",
        };
        let key = json_string(PERSISTENT_REFERRAL_INVITE_KEY).unwrap();
        let address = json_string(email).unwrap();
        let body = "{\"referral_key\":".to_owned().concat(key.as_str()).concat(
            ",\"emails\":[",
        ).concat(address.as_str()).concat("]}");
        let request = BackendRequest {
            method: HttpMethod::Post,
            url: self.base_url.clone().concat(path),
            query: Vec::new(),
            content_type: Some("application/json"),
            body: Some(body),
        };
        proof {
            assert(request@.query =~= Seq::empty());
        }
        request
    }

    /// Turns the outcome of decoding an invite response into the client's result. Of a response that
    /// does not decode, the error tells the decoder's complaint, but none that quotes a string of the
    /// response.
    pub fn decode_referral_invite_response(
        &self,
        url: &str,
        content_type: &str,
        decoded: Result<ReferralInviteResponse, DecodeFailure>,
    ) -> (result: Result<ReferralInviteResponse, RequestError>)
        ensures
            decoded matches Ok(response) ==> result == Ok::<_, RequestError>(response),
            decoded matches Err(failure) ==> (result matches Err(error) && error@
                == RequestErrorView::Other(decode_error_text(url@, content_type@, failure@))),
    {
        match decoded {
            Ok(response) => Ok(response),
            Err(failure) => Err(
                RequestError::Other(
                    "Decode error for ".to_owned().concat(url).concat(": ").concat(
                        failure.describe().as_str(),
                    ).concat("; content-type=").concat(content_type).concat(
                        "; response body omitted because it can contain referral email addresses",
                    ),
                ),
            ),
        }
    }
}

/// Removes the response body from an error, because it can contain referral email addresses.
pub fn redact_referral_response_error(error: RequestError) -> (redacted: RequestError)
    ensures
        redacted@ == error@.redacted(),
{
    match error {
        RequestError::UnexpectedStatus { method, url, status, content_type, body: _ } =>
            RequestError::UnexpectedStatus {
                method,
                url,
                status,
                content_type,
                body: "omitted because it can contain referral email addresses".to_owned(),
            },
        RequestError::Other(message) => RequestError::Other(message),
    }
}

/// A redacted error carries nothing of the response body: two responses that differ only in their
/// bodies give the same error, with the same text.
pub proof fn lemma_redaction_hides_the_body(
    method: Seq<char>,
    url: Seq<char>,
    status: u16,
    content_type: Seq<char>,
    body: Seq<char>,
    other_body: Seq<char>,
)
    ensures
        ({
            let error = RequestErrorView::UnexpectedStatus {
                method,
                url,
                status,
                content_type,
                body,
            };
            let other = RequestErrorView::UnexpectedStatus {
                method,
                url,
                status,
                content_type,
                body: other_body,
            };
            &&& error.redacted() == other.redacted()
            &&& error.redacted().message_text() == other.redacted().message_text()
        }),
{
}

/// Redaction keeps the status of the response and changes nothing when it is repeated.
pub proof fn lemma_redaction_keeps_the_status(error: RequestErrorView)
    ensures
        error.redacted().status() == error.status(),
        error.redacted().redacted() == error.redacted(),
{
}

/// No string of a response gets into a decode error: wherever the decoder quotes one, the text depends on
/// the place of the failure alone, whatever the complaint says.
pub proof fn lemma_quoted_strings_are_withheld(
    url: Seq<char>,
    content_type: Seq<char>,
    failure: DecodeFailureView,
    other: DecodeFailureView,
)
    requires
        failure.quotes_response(),
        other.quotes_response(),
        failure.line == other.line,
        failure.column == other.column,
    ensures
        decode_error_text(url, content_type, failure) == decode_error_text(
            url,
            content_type,
            other,
        ),
{
}

/// Whether a text can be an email address on its own: it has an `@`, and nothing that ends a word in
/// an error text.
pub open spec fn is_address(text: Seq<char>) -> bool {
    text.contains('@') && !text.contains(' ') && !text.contains(':') && !text.contains(';')
}

proof fn lemma_decimal_is_no_address(n: nat)
    ensures
        !decimal(n).contains('@'),
    decreases n,
{
    let digits = decimal(n);
    if n >= 10 {
        lemma_decimal_is_no_address(n / 10);
        let higher = decimal(n / 10);
        assert forall|i: int| 0 <= i < digits.len() implies digits[i] != '@' by {
            if i < higher.len() {
                assert(digits[i] == higher[i]);
                assert(higher.contains(higher[i]));
            }
        }
    }
}

/// An address inside `before + middle + after` whose `@` stands inside `middle` stands there as a whole,
/// if the texts around are set off from it by characters that it does not have.
proof fn lemma_address_stands_inside(
    address: Seq<char>,
    before: Seq<char>,
    middle: Seq<char>,
    after: Seq<char>,
    i: int,
    k: int,
)
    requires
        0 <= k < address.len(),
        before.len() > 0,
        !address.contains(before.last()),
        after.len() > 0,
        !address.contains(after[0]),
        0 <= i,
        i + address.len() <= (before + middle + after).len(),
        (before + middle + after).subrange(i, i + address.len()) == address,
        before.len() <= i + k < before.len() + middle.len(),
    ensures
        occurs_in(address, middle),
{
    let whole = before + middle + after;
    let found = whole.subrange(i, i + address.len());
    assert forall|j: int| 0 <= j < address.len() implies whole[i + j] == address[j] by {
        assert(found[j] == whole[i + j]);
    }
    if i < before.len() {
        let j = before.len() - 1 - i;
        assert(whole[i + j] == before.last());
        assert(address.contains(address[j]));
    }
    if i + address.len() > before.len() + middle.len() {
        let j = before.len() + middle.len() - i;
        assert(whole[i + j] == after[0]);
        assert(address.contains(address[j]));
    }
    let at = i - before.len();
    assert(middle.subrange(at, at + address.len()) =~= address);
}

/// A decode error names no email address of the response: an address that stands in its text stands in
/// the URL or in the content type. One with a `=` can also begin in the words before the content type.
pub proof fn lemma_decode_errors_hold_no_address(
    url: Seq<char>,
    content_type: Seq<char>,
    failure: DecodeFailureView,
    address: Seq<char>,
)
    requires
        is_address(address),
        occurs_in(address, decode_error_text(url, content_type, failure)),
    ensures
        occurs_in(address, url) || occurs_in(address, "content-type="@ + content_type),
        !address.contains('=') ==> occurs_in(address, url) || occurs_in(address, content_type),
{
    let head = "Decode error for "@;
    let field = "content-type="@ + content_type;
    let tail = "; response body omitted because it can contain referral email addresses"@;
    let middle = ": "@ + failure.text() + "; "@;
    let text = decode_error_text(url, content_type, failure);
    reveal_strlit("Decode error for ");
    reveal_strlit(": ");
    reveal_strlit("; ");
    reveal_strlit("; content-type=");
    reveal_strlit("content-type=");
    reveal_strlit("; response body omitted because it can contain referral email addresses");
    reveal_strlit(" column ");
    reveal_strlit("invalid data at line ");
    assert("; content-type="@ =~= "; "@ + "content-type="@);
    assert(text =~= head + url + middle + field + tail);
    lemma_decimal_is_no_address(failure.line as nat);
    lemma_decimal_is_no_address(failure.column as nat);
    let line = decimal(failure.line as nat);
    let column = decimal(failure.column as nat);
    let told = failure.text();
    assert forall|j: int| 0 <= j < told.len() implies told[j] != '@' by {
        if failure.quotes_response() {
            let a = "invalid data at line "@.len();
            let b = a + line.len();
            let c = b + 8;
            if a <= j < b {
                assert(told[j] == line[j - a]);
                assert(line.contains(line[j - a]));
            } else if c <= j {
                assert(told[j] == column[j - c]);
                assert(column.contains(column[j - c]));
            }
        } else {
            assert(failure.complaint.contains(failure.complaint[j]));
        }
    }
    assert forall|j: int| 0 <= j < middle.len() implies middle[j] != '@' by {
        if 2 <= j < 2 + told.len() {
            assert(middle[j] == told[j - 2]);
        }
    }
    let i = choose|i: int|
        0 <= i && i + address.len() <= text.len() && #[trigger] text.subrange(
            i,
            i + address.len(),
        ) == address;
    let k = choose|k: int| 0 <= k < address.len() && address[k] == '@';
    let at = i + k;
    assert(text[at] == '@') by {
        assert(text.subrange(i, i + address.len())[k] == text[at]);
    }
    let url_end = head.len() + url.len();
    let field_start = url_end + middle.len();
    let field_end = field_start + field.len();
    if at < head.len() {
        assert(text[at] == head[at]);
    } else if at < url_end {
        let after = middle + field + tail;
        assert(head + url + after =~= text);
        assert(after[0] == ':');
        lemma_address_stands_inside(address, head, url, after, i, k);
    } else if at < field_start {
        assert(text[at] == middle[at - url_end]);
    } else if at < field_end {
        let before = head + url + middle;
        assert(before + field + tail =~= text);
        assert(before.last() == ' ');
        lemma_address_stands_inside(address, before, field, tail, i, k);
        if !address.contains('=') {
            let words = before + "content-type="@;
            assert(words + content_type + tail =~= text);
            assert(words.last() == '=');
            if at < words.len() {
                assert(text[at] == "content-type="@[at - before.len()]);
            } else {
                lemma_address_stands_inside(address, words, content_type, tail, i, k);
            }
        }
    } else {
        assert(text[at] == tail[at - field_end]);
    }
}

/// Only the invite itself changes anything at the backend: the other two requests read and carry no body.
/// All of them go to the given base URL and name the persistent invite program, each once.
pub proof fn lemma_what_is_asked_of_the_backend(
    base_url: Seq<char>,
    path_style: PathStyle,
    email: Seq<char>,
)
    ensures
        ({
            let program = "codex_referral_persistent_invite"@;
            let eligibility = eligibility_request(base_url, path_style);
            let rules = rules_request(base_url, path_style);
            let invite = invite_request(base_url, path_style, email);
            let chatgpt = path_style == PathStyle::ChatGptApi;
            &&& eligibility is Ok <==> chatgpt
            &&& eligibility matches Ok(request) ==> {
                &&& request.method == HttpMethod::Get && request.body is None
                    && request.content_type is None
                &&& request.url == base_url + "/referrals/invite/eligibility"@
                &&& request.query.len() == 3
                &&& request.query[0] == ("referral_key"@, program)
                &&& request.query[1] == ("requested_referrals"@, "1"@)
                &&& request.query[2] == ("supports_rewardless_invites"@, "false"@)
            }
            &&& eligibility matches Err(error) ==> error == RequestErrorView::Other(
                "persistent referral invite eligibility requires a ChatGPT backend-api base URL"@,
            )
            &&& rules.method == HttpMethod::Get && rules.body is None && rules.content_type is None
            &&& rules.query.len() == 1 && rules.query[0] == ("referral_key"@, program)
            &&& chatgpt ==> rules.url == base_url + "/wham/referrals/eligibility_rules"@
                && invite.url == base_url + "/wham/referrals/invite"@
            &&& !chatgpt ==> rules.url == base_url + "/api/codex/referrals/eligibility_rules"@
                && invite.url == base_url + "/api/codex/referrals/invite"@
            &&& invite.method == HttpMethod::Post && invite.query.len() == 0 && invite.content_type
                == Some("application/json"@)
            &&& invite.body == Some(
                "{\"referral_key\":"@ + json_quoted(program) + ",\"emails\":["@ + json_quoted(email)
                    + "]}"@,
            )
        }),
{
}

/// What an error tells of a response: its status and all of its parts in the text; an error without a
/// response has its own text and no status.
pub proof fn lemma_what_errors_tell(error: RequestError)
    ensures
        match error {
            RequestError::UnexpectedStatus { method, url, status, content_type, body } => {
                &&& error@.status() == Some(status)
                &&& error@.message_text() == method@ + " "@ + url@ + " failed: "@ + decimal(
                    status as nat,
                ) + "; content-type="@ + content_type@ + "; body="@ + body@
            },
            RequestError::Other(message) => error@.status() is None && error@.message_text()
                == message@,
        },
{
}

/// Redaction replaces the body, whatever it is, and leaves everything else as it was.
pub proof fn lemma_redaction_replaces_only_the_body(
    method: Seq<char>,
    url: Seq<char>,
    status: u16,
    content_type: Seq<char>,
    body: Seq<char>,
    message: Seq<char>,
)
    ensures
        (RequestErrorView::UnexpectedStatus { method, url, status, content_type, body }).redacted()
            == (RequestErrorView::UnexpectedStatus {
            method,
            url,
            status,
            content_type,
            body: "omitted because it can contain referral email addresses"@,
        }),
        RequestErrorView::Other(message).redacted() == RequestErrorView::Other(message),
{
}

/// A decode error tells where and why decoding failed. The decoder's complaint is told word by word unless
/// a double quote or an `@` in it shows that it quotes the response; then only the place is told.
pub proof fn lemma_what_decode_errors_tell(
    url: Seq<char>,
    content_type: Seq<char>,
    response: DecodeFailure,
)
    ensures
        ({
            let complaint = response.complaint@;
            let told = decode_error_text(url, content_type, response@);
            let tail = "; content-type="@ + content_type
                + "; response body omitted because it can contain referral email addresses"@;
            let place = "invalid data at line "@ + decimal(response.line as nat) + " column "@
                + decimal(response.column as nat);
            let quotes = exists|i: int|
                0 <= i < complaint.len() && (#[trigger] complaint[i] == '"' || complaint[i] == '@');
            &&& quotes ==> told == "Decode error for "@ + url + ": "@ + place + tail
            &&& !quotes ==> told == "Decode error for "@ + url + ": "@ + complaint + tail
        }),
{
    let failure = response@;
    let told = decode_error_text(url, content_type, failure);
    let tail = "; content-type="@ + content_type
        + "; response body omitted because it can contain referral email addresses"@;
    assert(told =~= "Decode error for "@ + url + ": "@ + failure.text() + tail);
    let quotes = exists|i: int|
        0 <= i < failure.complaint.len() && (#[trigger] failure.complaint[i] == '"'
            || failure.complaint[i] == '@');
    if quotes {
        let i = choose|i: int|
            0 <= i < failure.complaint.len() && (#[trigger] failure.complaint[i] == '"'
                || failure.complaint[i] == '@');
        assert(failure.complaint.contains(failure.complaint[i]));
    } else if failure.complaint.contains('"') {
        let i = choose|i: int| 0 <= i < failure.complaint.len() && failure.complaint[i] == '"';
        assert(failure.complaint[i] == '"');
    } else if failure.complaint.contains('@') {
        let i = choose|i: int| 0 <= i < failure.complaint.len() && failure.complaint[i] == '@';
        assert(failure.complaint[i] == '@');
    }
}

} // verus!
