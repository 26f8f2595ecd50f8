//! Referral requests pinned to the signed-in account.
//!
//! A request is a series of attempts. Each attempt loads the credentials, checks whom they belong
//! to, builds a client and sends the request; an attempt that the backend answers with
//! "unauthorized" is repeated once the credentials could be refreshed. Loading credentials,
//! building clients, sending and refreshing are the caller's; it reports each outcome back.
use vstd::prelude::*;
use vstd::string::*;

use crate::auth::{optional_auth, AccountAuth, AccountAuthView};
use crate::backend_client::RequestError;
use crate::referral::{
    optional_identity, PersistentReferralInviteEligibility, PersistentReferralInviteOffer,
    ReferralEligibilityRules, ReferralError, ReferralIdentity, ReferralIdentityView,
    ReferralInviteResponse,
};

verus! {

const REFERRAL_GATED_STATUS_CODE: u16 = 403;

const REFERRAL_UNAUTHORIZED_STATUS_CODE: u16 = 401;

/// Auth state pinned to the current client session.
///
/// The pinned referral identity advances only when the owning client updates the shared auth state
/// and calls [`Self::sync_identity`]. This keeps referral requests on the same identity as the
/// embedded session.
pub struct ReferralSession {
    chatgpt_base_url: String,
    pinned_identity: Option<ReferralIdentity>,
}

/// The value of a [`ReferralSession`].
pub struct ReferralSessionView {
    pub chatgpt_base_url: Seq<char>,
    /// The identity that referral requests are pinned to.
    pub pinned_identity: Option<ReferralIdentityView>,
}

impl View for ReferralSession {
    type V = ReferralSessionView;

    closed spec fn view(&self) -> ReferralSessionView {
        ReferralSessionView {
            chatgpt_base_url: self.chatgpt_base_url@,
            pinned_identity: optional_identity(self.pinned_identity),
        }
    }
}

/// Whom credentials belong to. Both parts of the identity have to be known and non-empty.
pub open spec fn identity_of(auth: AccountAuthView) -> Result<ReferralIdentityView, ReferralError> {
    if !auth.is_chatgpt_auth {
        Err(ReferralError::ChatGptAuthenticationRequired)
    } else {
        match (auth.chatgpt_user_id, auth.account_id) {
            (Some(user), Some(account)) if user.len() > 0 && account.len() > 0 => Ok(
                ReferralIdentityView { chatgpt_user_id: user, account_id: account },
            ),
            (Some(user), _) if user.len() > 0 => Err(ReferralError::AccountIdUnavailable),
            _ => Err(ReferralError::UserIdUnavailable),
        }
    }
}

/// The identity to pin for the cached credentials: none where there is no usable identity.
pub open spec fn identity_to_pin(cached: Option<AccountAuthView>) -> Option<ReferralIdentityView> {
    match cached {
        Some(auth) => match identity_of(auth) {
            Ok(identity) => Some(identity),
            Err(_) => None,
        },
        None => None,
    }
}

/// A session after it was synced with the cached credentials.
pub open spec fn synced(
    session: ReferralSessionView,
    cached: Option<AccountAuthView>,
) -> ReferralSessionView {
    ReferralSessionView { pinned_identity: identity_to_pin(cached), ..session }
}

/// Whom the loaded credentials belong to, wherever that is usable at all.
pub open spec fn unpinned_identity(auth: Option<AccountAuthView>) -> Result<
    ReferralIdentityView,
    ReferralError,
> {
    match auth {
        Some(auth) => identity_of(auth),
        None => Err(ReferralError::ChatGptAuthenticationRequired),
    }
}

/// Whom the loaded credentials belong to, where that is still the pinned identity.
pub open spec fn pinned_identity_of(
    pinned: Option<ReferralIdentityView>,
    auth: Option<AccountAuthView>,
) -> Result<ReferralIdentityView, ReferralError> {
    match unpinned_identity(auth) {
        Ok(identity) if pinned != Some(identity) => Err(ReferralError::AccountChanged),
        result => result,
    }
}

/// Under which identity an attempt may be sent.
pub open spec fn attempt_identity(
    pinned: Option<ReferralIdentityView>,
    expected: Option<ReferralIdentityView>,
    auth: Option<AccountAuthView>,
) -> Result<ReferralIdentityView, ReferralError> {
    match pinned_identity_of(pinned, auth) {
        Ok(identity) if expected is Some && expected != Some(identity) => Err(
            ReferralError::AccountChanged,
        ),
        result => result,
    }
}

/// The value of the result of an identity check.
pub open spec fn identity_result(result: Result<ReferralIdentity, ReferralError>) -> Result<
    ReferralIdentityView,
    ReferralError,
> {
    match result {
        Ok(identity) => Ok(identity@),
        Err(error) => Err(error),
    }
}

/// Why a request did not succeed.
#[derive(Debug, Eq, PartialEq)]
pub enum ReferralRequestFailure {
    Session(ReferralError),
    ClientBuild,
    Backend(RequestError),
}

impl ReferralRequestFailure {
    /// The status that a failure may expose.
    pub open spec fn status_code(self) -> Option<u16> {
        match self {
            ReferralRequestFailure::Backend(error) => error@.status(),
            _ => None,
        }
    }

    /// Whether the backend keeps the program closed for this account.
    pub open spec fn is_gated(self) -> bool {
        self.status_code() == Some(403u16)
    }
}

/// What follows from the eligibility request.
#[derive(Debug, Eq, PartialEq)]
pub enum EligibilityStep {
    Return(Result<Option<PersistentReferralInviteOffer>, ReferralError>),
    /// Request the rules for this identity.
    LoadRules { eligibility: PersistentReferralInviteEligibility, identity: ReferralIdentity },
}

impl ReferralSession {
    /// A session pinned to the identity of the cached credentials.
    pub fn from_auth_manager(cached: Option<&AccountAuth>, chatgpt_base_url: String) -> (session:
        Self)
        ensures
            session@ == (ReferralSessionView {
                chatgpt_base_url: chatgpt_base_url@,
                pinned_identity: identity_to_pin(optional_auth(cached)),
            }),
    {
        ReferralSession { chatgpt_base_url, pinned_identity: Self::cached_identity(cached) }
    }

    /// Moves the pinned identity to that of the cached credentials.
    pub fn sync_identity(&mut self, cached: Option<&AccountAuth>)
        ensures
            final(self)@ == (ReferralSessionView {
                pinned_identity: identity_to_pin(optional_auth(cached)),
                ..old(self)@
            }),
            final(self)@ == synced(old(self)@, optional_auth(cached)),
    {
        self.pinned_identity = Self::cached_identity(cached);
    }

    /// The base URL of the backend that the session's clients talk to.
    pub fn chatgpt_base_url(&self) -> (url: &str)
        ensures
            url@ == self@.chatgpt_base_url,
    {
        self.chatgpt_base_url.as_str()
    }

    fn cached_identity(cached: Option<&AccountAuth>) -> (identity: Option<ReferralIdentity>)
        ensures
            optional_identity(identity) == identity_to_pin(optional_auth(cached)),
    {
        match cached {
            Some(auth) => match Self::identity_from_auth(auth) {
                Ok(identity) => Some(identity),
                Err(_) => None,
            },
            None => None,
        }
    }

    /// Whom credentials belong to.
    pub fn identity_from_auth(auth: &AccountAuth) -> (result: Result<
        ReferralIdentity,
        ReferralError,
    >)
        ensures
            identity_result(result) == identity_of(auth@),
    {
        if !auth.is_chatgpt_auth {
            return Err(ReferralError::ChatGptAuthenticationRequired);
        }
        let chatgpt_user_id = match &auth.chatgpt_user_id {
            Some(user_id) if !user_id.as_str().is_empty() => user_id.clone(),
            _ => {
                return Err(ReferralError::UserIdUnavailable);
            },
        };
        let account_id = match &auth.account_id {
            Some(account_id) if !account_id.as_str().is_empty() => account_id.clone(),
            _ => {
                return Err(ReferralError::AccountIdUnavailable);
            },
        };
        Ok(ReferralIdentity::new(chatgpt_user_id, account_id))
    }

    /// Whom the loaded credentials belong to; missing ones call for a sign-in.
    pub fn load_unpinned_chatgpt_auth(auth: Option<&AccountAuth>) -> (result: Result<
        ReferralIdentity,
        ReferralError,
    >)
        ensures
            identity_result(result) == unpinned_identity(optional_auth(auth)),
    {
        match auth {
            Some(auth) => Self::identity_from_auth(auth),
            None => Err(ReferralError::ChatGptAuthenticationRequired),
        }
    }

    /// Whom the loaded credentials belong to, refusing anybody but the pinned identity.
    pub fn load_chatgpt_auth(&self, auth: Option<&AccountAuth>) -> (result: Result<
        ReferralIdentity,
        ReferralError,
    >)
        ensures
            identity_result(result) == pinned_identity_of(self@.pinned_identity, optional_auth(auth)),
    {
        match Self::load_unpinned_chatgpt_auth(auth) {
            Ok(identity) => {
                let still_pinned = match &self.pinned_identity {
                    Some(pinned) => pinned.same(&identity),
                    None => false,
                };
                if still_pinned {
                    Ok(identity)
                } else {
                    Err(ReferralError::AccountChanged)
                }
            },
            Err(error) => Err(error),
        }
    }

    /// Starts an attempt with freshly loaded credentials. Nothing may be sent unless this returns
    /// an identity, which is then the pinned one and the expected one.
    pub fn begin_attempt(
        &self,
        expected: Option<&ReferralIdentity>,
        auth: Option<&AccountAuth>,
    ) -> (result: Result<ReferralIdentity, ReferralRequestFailure>)
        ensures
            match result {
                Ok(identity) => Ok(identity@),
                Err(failure) => Err(failure),
            } == match attempt_identity(
                self@.pinned_identity,
                match expected {
                    Some(expected) => Some(expected@),
                    None => None,
                },
                optional_auth(auth),
            ) {
                Ok(identity) => Ok(identity),
                Err(error) => Err(ReferralRequestFailure::Session(error)),
            },
    {
        match self.load_chatgpt_auth(auth) {
            Ok(identity) => {
                let allowed = match expected {
                    Some(expected) => expected.same(&identity),
                    None => true,
                };
                if allowed {
                    Ok(identity)
                } else {
                    Err(ReferralRequestFailure::Session(ReferralError::AccountChanged))
                }
            },
            Err(error) => Err(ReferralRequestFailure::Session(error)),
        }
    }
}

fn is_expected_gated_response(error: &RequestError) -> (gated: bool)
    ensures
        gated == (error@.status() == Some(403u16)),
{
    match error.status() {
        Some(status) => status == REFERRAL_GATED_STATUS_CODE,
        None => false,
    }
}

fn is_unauthorized_response(error: &RequestError) -> (unauthorized: bool)
    ensures
        unauthorized == (error@.status() == Some(401u16)),
{
    match error.status() {
        Some(status) => status == REFERRAL_UNAUTHORIZED_STATUS_CODE,
        None => false,
    }
}

/// Whether a response asks for a refresh of the credentials.
pub open spec fn is_unauthorized<T>(response: Result<T, RequestError>) -> bool {
    response matches Err(error) && error@.status() == Some(401u16)
}

/// Where a request stands; every phase but the last names what the caller does next.
#[derive(Debug, Eq, PartialEq)]
pub enum RequestPhase<T> {
    /// Load the credentials.
    LoadAuth,
    /// Build a client for the loaded credentials.
    BuildClient { identity: ReferralIdentity },
    /// Send the request.
    Send { identity: ReferralIdentity },
    /// Refresh the credentials, if there is a way left to do so.
    Recover,
    /// The request is over.
    Done(Result<(T, ReferralIdentity), ReferralRequestFailure>),
}

/// What the caller reports back.
pub enum RequestEvent<'a, T> {
    AuthLoaded(Option<&'a AccountAuth>),
    ClientBuilt(bool),
    Responded(Result<T, RequestError>),
    Recovered(bool),
}

/// How a request ended.
pub type RequestOutcome<T> = Result<(T, ReferralIdentityView), ReferralRequestFailure>;

/// The value of a [`RequestPhase`].
pub enum RequestPhaseView<T> {
    LoadAuth,
    BuildClient { identity: ReferralIdentityView },
    Send { identity: ReferralIdentityView },
    Recover,
    Done(RequestOutcome<T>),
}

/// The value of a [`RequestEvent`].
pub enum RequestEventView<T> {
    AuthLoaded(Option<AccountAuthView>),
    ClientBuilt(bool),
    Responded(Result<T, RequestError>),
    Recovered(bool),
}

impl<T> RequestPhase<T> {
    pub open spec fn value(self) -> RequestPhaseView<T> {
        match self {
            RequestPhase::LoadAuth => RequestPhaseView::LoadAuth,
            RequestPhase::BuildClient { identity } => RequestPhaseView::BuildClient {
                identity: identity@,
            },
            RequestPhase::Send { identity } => RequestPhaseView::Send { identity: identity@ },
            RequestPhase::Recover => RequestPhaseView::Recover,
            RequestPhase::Done(Ok((response, identity))) => RequestPhaseView::Done(
                Ok((response, identity@)),
            ),
            RequestPhase::Done(Err(failure)) => RequestPhaseView::Done(Err(failure)),
        }
    }
}

impl<'a, T> RequestEvent<'a, T> {
    pub open spec fn value(self) -> RequestEventView<T> {
        match self {
            RequestEvent::AuthLoaded(auth) => RequestEventView::AuthLoaded(optional_auth(auth)),
            RequestEvent::ClientBuilt(built) => RequestEventView::ClientBuilt(built),
            RequestEvent::Responded(response) => RequestEventView::Responded(response),
            RequestEvent::Recovered(recovered) => RequestEventView::Recovered(recovered),
        }
    }
}

/// The phase after an event. An event that the phase does not wait for changes nothing.
pub open spec fn next_phase<T>(
    phase: RequestPhaseView<T>,
    pinned: Option<ReferralIdentityView>,
    expected: Option<ReferralIdentityView>,
    event: RequestEventView<T>,
) -> RequestPhaseView<T> {
    match (phase, event) {
        (RequestPhaseView::LoadAuth, RequestEventView::AuthLoaded(auth)) => match attempt_identity(
            pinned,
            expected,
            auth,
        ) {
            Ok(identity) => RequestPhaseView::BuildClient { identity },
            Err(error) => RequestPhaseView::Done(Err(ReferralRequestFailure::Session(error))),
        },
        (RequestPhaseView::BuildClient { identity }, RequestEventView::ClientBuilt(built)) => if built {
            RequestPhaseView::Send { identity }
        } else {
            RequestPhaseView::Done(Err(ReferralRequestFailure::ClientBuild))
        },
        (RequestPhaseView::Send { identity }, RequestEventView::Responded(response)) => if is_unauthorized(
            response,
        ) {
            RequestPhaseView::Recover
        } else {
            match response {
                Ok(response) => RequestPhaseView::Done(Ok((response, identity))),
                Err(error) => RequestPhaseView::Done(Err(ReferralRequestFailure::Backend(error))),
            }
        },
        (RequestPhaseView::Recover, RequestEventView::Recovered(recovered)) => if recovered {
            RequestPhaseView::LoadAuth
        } else {
            RequestPhaseView::Done(
                Err(ReferralRequestFailure::Session(ReferralError::ChatGptAuthenticationRequired)),
            )
        },
        _ => phase,
    }
}

impl<T> RequestPhase<T> {
    /// Advances a request by one event, under the identity that the session has pinned right now.
    pub fn advance(
        self,
        session: &ReferralSession,
        expected: Option<&ReferralIdentity>,
        event: RequestEvent<T>,
    ) -> (next: Self)
        ensures
            next.value() == next_phase(
                self.value(),
                session@.pinned_identity,
                match expected {
                    Some(expected) => Some(expected@),
                    None => None,
                },
                event.value(),
            ),
    {
        match self {
            RequestPhase::LoadAuth => match event {
                RequestEvent::AuthLoaded(auth) => match session.begin_attempt(expected, auth) {
                    Ok(identity) => RequestPhase::BuildClient { identity },
                    Err(failure) => RequestPhase::Done(Err(failure)),
                },
                _ => RequestPhase::LoadAuth,
            },
            RequestPhase::BuildClient { identity } => match event {
                RequestEvent::ClientBuilt(true) => RequestPhase::Send { identity },
                RequestEvent::ClientBuilt(false) => RequestPhase::Done(
                    Err(ReferralRequestFailure::ClientBuild),
                ),
                _ => RequestPhase::BuildClient { identity },
            },
            RequestPhase::Send { identity } => match event {
                RequestEvent::Responded(response) => match response {
                    Ok(response) => RequestPhase::Done(Ok((response, identity))),
                    Err(error) => {
                        if is_unauthorized_response(&error) {
                            RequestPhase::Recover
                        } else {
                            RequestPhase::Done(Err(ReferralRequestFailure::Backend(error)))
                        }
                    },
                },
                _ => RequestPhase::Send { identity },
            },
            RequestPhase::Recover => match event {
                RequestEvent::Recovered(true) => RequestPhase::LoadAuth,
                RequestEvent::Recovered(false) => RequestPhase::Done(
                    Err(
                        ReferralRequestFailure::Session(
                            ReferralError::ChatGptAuthenticationRequired,
                        ),
                    ),
                ),
                _ => RequestPhase::Recover,
            },
            RequestPhase::Done(outcome) => RequestPhase::Done(outcome),
        }
    }
}

/// What follows from the eligibility request. A gated program and an offer that should not be shown
/// are ordinary unavailability.
pub open spec fn eligibility_step(
    received: Result<
        (PersistentReferralInviteEligibility, ReferralIdentity),
        ReferralRequestFailure,
    >,
) -> EligibilityStep {
    match received {
        Ok((eligibility, identity)) => if eligibility.should_show {
            EligibilityStep::LoadRules { eligibility, identity }
        } else {
            EligibilityStep::Return(Ok(None))
        },
        Err(failure) if failure.is_gated() => EligibilityStep::Return(Ok(None)),
        Err(ReferralRequestFailure::Session(error)) => EligibilityStep::Return(Err(error)),
        Err(failure) => EligibilityStep::Return(
            Err(ReferralError::EligibilityRequestFailed { status_code: failure.status_code() }),
        ),
    }
}

/// The offer, once the rules request is over.
pub open spec fn offer_result(
    eligibility: PersistentReferralInviteEligibility,
    identity: ReferralIdentity,
    received: Result<(ReferralEligibilityRules, ReferralIdentity), ReferralRequestFailure>,
) -> Result<Option<PersistentReferralInviteOffer>, ReferralError> {
    match received {
        Ok((rules, _)) => Ok(
            Some(PersistentReferralInviteOffer { expected_identity: identity, eligibility, rules }),
        ),
        Err(failure) if failure.is_gated() => Ok(None),
        Err(ReferralRequestFailure::Session(error)) => Err(error),
        Err(failure) => Err(
            ReferralError::RulesRequestFailed { status_code: failure.status_code() },
        ),
    }
}

/// What loading an offer comes to, given how the two requests end.
pub open spec fn loaded_offer(
    eligibility: Result<
        (PersistentReferralInviteEligibility, ReferralIdentity),
        ReferralRequestFailure,
    >,
    rules: Result<(ReferralEligibilityRules, ReferralIdentity), ReferralRequestFailure>,
) -> Result<Option<PersistentReferralInviteOffer>, ReferralError> {
    match eligibility_step(eligibility) {
        EligibilityStep::Return(result) => result,
        EligibilityStep::LoadRules { eligibility, identity } => offer_result(
            eligibility,
            identity,
            rules,
        ),
    }
}

/// Decides what follows from the eligibility request. A gated program and an offer that should not
/// be shown are ordinary unavailability.
pub fn eligibility_received(
    received: Result<
        (PersistentReferralInviteEligibility, ReferralIdentity),
        ReferralRequestFailure,
    >,
) -> (step: EligibilityStep)
    ensures
        step == eligibility_step(received),
{
    match received {
        Ok((eligibility, identity)) => {
            if !eligibility.should_show {
                return EligibilityStep::Return(Ok(None));
            }
            EligibilityStep::LoadRules { eligibility, identity }
        },
        Err(ReferralRequestFailure::Backend(error)) => {
            if is_expected_gated_response(&error) {
                return EligibilityStep::Return(Ok(None));
            }
            EligibilityStep::Return(
                Err(ReferralError::EligibilityRequestFailed { status_code: error.status() }),
            )
        },
        Err(ReferralRequestFailure::ClientBuild) => EligibilityStep::Return(
            Err(ReferralError::EligibilityRequestFailed { status_code: None }),
        ),
        Err(ReferralRequestFailure::Session(error)) => EligibilityStep::Return(Err(error)),
    }
}

/// Puts the offer together once the rules request is over. The offer belongs to the identity for
/// which its eligibility was loaded.
pub fn rules_received(
    eligibility: PersistentReferralInviteEligibility,
    identity: ReferralIdentity,
    received: Result<(ReferralEligibilityRules, ReferralIdentity), ReferralRequestFailure>,
) -> (result: Result<Option<PersistentReferralInviteOffer>, ReferralError>)
    ensures
        result == offer_result(eligibility, identity, received),
{
    match received {
        Ok((rules, _)) => Ok(
            Some(
                PersistentReferralInviteOffer { expected_identity: identity, eligibility, rules },
            ),
        ),
        Err(ReferralRequestFailure::Backend(error)) => {
            if is_expected_gated_response(&error) {
                return Ok(None);
            }
            Err(ReferralError::RulesRequestFailed { status_code: error.status() })
        },
        Err(ReferralRequestFailure::ClientBuild) => Err(
            ReferralError::RulesRequestFailed { status_code: None },
        ),
        Err(ReferralRequestFailure::Session(error)) => Err(error),
    }
}

/// The error of an invite that was not sent.
pub open spec fn invite_error(failure: ReferralRequestFailure) -> ReferralError {
    match failure {
        ReferralRequestFailure::Session(error) => error,
        failure => ReferralError::InviteRequestFailed { status_code: failure.status_code() },
    }
}

/// The result of sending an invite.
pub fn invite_sent(
    received: Result<(ReferralInviteResponse, ReferralIdentity), ReferralRequestFailure>,
) -> (result: Result<ReferralInviteResponse, ReferralError>)
    ensures
        result == match received {
            Ok((response, _)) => Ok(response),
            Err(failure) => Err(invite_error(failure)),
        },
{
    match received {
        Ok((response, _)) => Ok(response),
        Err(ReferralRequestFailure::Session(error)) => Err(error),
        Err(ReferralRequestFailure::ClientBuild) => Err(
            ReferralError::InviteRequestFailed { status_code: None },
        ),
        Err(ReferralRequestFailure::Backend(error)) => Err(
            ReferralError::InviteRequestFailed { status_code: error.status() },
        ),
    }
}

/// One attempt as it happened: what was pinned, which credentials were loaded, whether a client
/// could be built, what the backend answered and whether the credentials were refreshed after that.
pub struct Attempt<T> {
    pub pinned: Option<ReferralIdentityView>,
    pub auth: Option<AccountAuthView>,
    pub client_built: bool,
    pub response: Result<T, RequestError>,
    pub recovered: bool,
}

/// Under which identity an attempt is sent, if it is sent at all.
pub open spec fn sent_as<T>(
    expected: Option<ReferralIdentityView>,
    attempt: Attempt<T>,
) -> Option<ReferralIdentityView> {
    match attempt_identity(attempt.pinned, expected, attempt.auth) {
        Ok(identity) if attempt.client_built => Some(identity),
        _ => None,
    }
}

/// How an attempt ends the request; an attempt that is to be repeated does not.
pub open spec fn attempt_outcome<T>(
    expected: Option<ReferralIdentityView>,
    attempt: Attempt<T>,
) -> Option<RequestOutcome<T>> {
    match attempt_identity(attempt.pinned, expected, attempt.auth) {
        Err(error) => Some(Err(ReferralRequestFailure::Session(error))),
        Ok(identity) => if !attempt.client_built {
            Some(Err(ReferralRequestFailure::ClientBuild))
        } else if is_unauthorized(attempt.response) {
            if attempt.recovered {
                None
            } else {
                Some(
                    Err(
                        ReferralRequestFailure::Session(
                            ReferralError::ChatGptAuthenticationRequired,
                        ),
                    ),
                )
            }
        } else {
            match attempt.response {
                Ok(response) => Some(Ok((response, identity))),
                Err(error) => Some(Err(ReferralRequestFailure::Backend(error))),
            }
        },
    }
}

/// How a request ends after the given attempts, if it ends within them.
pub open spec fn request_outcome<T>(
    expected: Option<ReferralIdentityView>,
    attempts: Seq<Attempt<T>>,
) -> Option<RequestOutcome<T>>
    decreases attempts.len(),
{
    if attempts.len() == 0 {
        None
    } else {
        match attempt_outcome(expected, attempts[0]) {
            None => request_outcome(expected, attempts.drop_first()),
            outcome => outcome,
        }
    }
}

/// Advances a request by the events of one attempt, in order.
pub open spec fn phase_after_attempt<T>(
    phase: RequestPhaseView<T>,
    expected: Option<ReferralIdentityView>,
    attempt: Attempt<T>,
) -> RequestPhaseView<T> {
    let loaded = next_phase(
        phase,
        attempt.pinned,
        expected,
        RequestEventView::AuthLoaded(attempt.auth),
    );
    let built = next_phase(
        loaded,
        attempt.pinned,
        expected,
        RequestEventView::ClientBuilt(attempt.client_built),
    );
    let responded = next_phase(
        built,
        attempt.pinned,
        expected,
        RequestEventView::Responded(attempt.response),
    );
    next_phase(
        responded,
        attempt.pinned,
        expected,
        RequestEventView::Recovered(attempt.recovered),
    )
}

/// Advances a request by the events of a series of attempts.
pub open spec fn phase_after<T>(
    phase: RequestPhaseView<T>,
    expected: Option<ReferralIdentityView>,
    attempts: Seq<Attempt<T>>,
) -> RequestPhaseView<T>
    decreases attempts.len(),
{
    if attempts.len() == 0 {
        phase
    } else {
        phase_after(
            phase_after_attempt(phase, expected, attempts[0]),
            expected,
            attempts.drop_first(),
        )
    }
}

proof fn lemma_done_stays_done<T>(
    outcome: RequestOutcome<T>,
    expected: Option<ReferralIdentityView>,
    attempts: Seq<Attempt<T>>,
)
    ensures
        phase_after(RequestPhaseView::Done(outcome), expected, attempts) == RequestPhaseView::Done(
            outcome,
        ),
    decreases attempts.len(),
{
    if attempts.len() > 0 {
        lemma_done_stays_done(outcome, expected, attempts.drop_first());
    }
}

/// The phases lead to the request's outcome: after any series of attempts, a request is either over
/// with its outcome or about to load the credentials for the next attempt.
pub proof fn lemma_phases_follow_the_attempts<T>(
    expected: Option<ReferralIdentityView>,
    attempts: Seq<Attempt<T>>,
)
    ensures
        phase_after(RequestPhaseView::LoadAuth, expected, attempts) == match request_outcome(
            expected,
            attempts,
        ) {
            Some(outcome) => RequestPhaseView::Done(outcome),
            None => RequestPhaseView::LoadAuth,
        },
    decreases attempts.len(),
{
    if attempts.len() > 0 {
        match attempt_outcome(expected, attempts[0]) {
            Some(outcome) => {
                lemma_done_stays_done(outcome, expected, attempts.drop_first());
            },
            None => {
                lemma_phases_follow_the_attempts(expected, attempts.drop_first());
            },
        }
    }
}

/// An identity mismatch blocks a request before the network: whatever is sent goes out under the
/// pinned identity, which is also that of the loaded credentials and, where one is expected, the
/// expected one.
pub proof fn lemma_requests_go_out_only_for_the_right_identity<T>(
    expected: Option<ReferralIdentityView>,
    attempt: Attempt<T>,
)
    ensures
        sent_as(expected, attempt) matches Some(identity) ==> {
            &&& attempt.pinned == Some(identity)
            &&& attempt.auth matches Some(auth) && identity_of(auth) == Ok::<_, ReferralError>(
                identity,
            )
            &&& expected is Some ==> expected == Some(identity)
        },
{
}

/// A request that succeeds returns the backend's answer to its last attempt and the identity under
/// which that attempt was sent. Every earlier attempt was answered "unauthorized" and followed by a
/// successful refresh of the credentials.
pub proof fn lemma_success_comes_from_the_last_attempt<T>(
    expected: Option<ReferralIdentityView>,
    attempts: Seq<Attempt<T>>,
) -> (last: int)
    requires
        request_outcome(expected, attempts) matches Some(Ok(_)),
    ensures
        0 <= last < attempts.len(),
        ({
            let result = request_outcome(expected, attempts)->Some_0->Ok_0;
            &&& attempts[last].response == Ok::<T, RequestError>(result.0)
            &&& sent_as(expected, attempts[last]) == Some(result.1)
        }),
        forall|i: int|
            0 <= i < last ==> is_unauthorized((#[trigger] attempts[i]).response)
                && attempts[i].recovered,
    decreases attempts.len(),
{
    match attempt_outcome(expected, attempts[0]) {
        None => {
            let rest = attempts.drop_first();
            let k = lemma_success_comes_from_the_last_attempt(expected, rest);
            assert(rest[k] == attempts[k + 1]);
            assert forall|i: int| 0 <= i < k + 1 implies is_unauthorized(
                (#[trigger] attempts[i]).response,
            ) && attempts[i].recovered by {
                if i > 0 {
                    assert(rest[i - 1] == attempts[i]);
                }
            }
            k + 1
        },
        _ => 0,
    }
}

/// An offer is put together for a single account: rules that were requested for the identity of the
/// eligibility come back under that same identity.
pub proof fn lemma_offer_belongs_to_one_account(
    eligibility_attempts: Seq<Attempt<PersistentReferralInviteEligibility>>,
    rules_attempts: Seq<Attempt<ReferralEligibilityRules>>,
)
    requires
        request_outcome(None, eligibility_attempts) matches Some(Ok(_)),
        request_outcome(
            Some(request_outcome(None, eligibility_attempts)->Some_0->Ok_0.1),
            rules_attempts,
        ) matches Some(Ok(_)),
    ensures
        request_outcome(
            Some(request_outcome(None, eligibility_attempts)->Some_0->Ok_0.1),
            rules_attempts,
        )->Some_0->Ok_0.1 == request_outcome(None, eligibility_attempts)->Some_0->Ok_0.1,
{
    let expected = Some(request_outcome(None, eligibility_attempts)->Some_0->Ok_0.1);
    let last = lemma_success_comes_from_the_last_attempt(expected, rules_attempts);
    lemma_requests_go_out_only_for_the_right_identity(expected, rules_attempts[last]);
}

/// Errors expose only the status of a response: two failures with the same status give the same
/// error, whatever else they hold.
pub proof fn lemma_errors_expose_only_the_status(error: RequestError, other: RequestError)
    requires
        error@.status() == other@.status(),
    ensures
        invite_error(ReferralRequestFailure::Backend(error)) == invite_error(
            ReferralRequestFailure::Backend(other),
        ),
        ReferralRequestFailure::Backend(error).status_code() == ReferralRequestFailure::Backend(
            other,
        ).status_code(),
        invite_error(ReferralRequestFailure::Backend(error)).message_text()
            == "the referral invite could not be sent"@,
{
}

/// The pinned identity moves only with [`ReferralSession::sync_identity`]: other credentials are
/// refused until then, and accepted after it wherever they name a usable identity.
pub proof fn lemma_identity_changes_need_a_sync(
    pinned: Option<ReferralIdentityView>,
    auth: AccountAuthView,
)
    ensures
        pinned_identity_of(pinned, Some(auth)) matches Ok(identity) ==> pinned == Some(identity),
        identity_of(auth) matches Ok(identity) ==> pinned_identity_of(
            identity_to_pin(Some(auth)),
            Some(auth),
        ) == Ok::<_, ReferralError>(identity),
{
}

/// There is an offer exactly if both requests succeed and the backend wants it shown; it holds what
/// they brought, under the identity of the eligibility request.
pub proof fn lemma_offers_need_both_answers(
    eligibility: Result<
        (PersistentReferralInviteEligibility, ReferralIdentity),
        ReferralRequestFailure,
    >,
    rules: Result<(ReferralEligibilityRules, ReferralIdentity), ReferralRequestFailure>,
)
    ensures
        loaded_offer(eligibility, rules) matches Ok(Some(_)) <==> eligibility is Ok
            && eligibility->Ok_0.0.should_show && rules is Ok,
        loaded_offer(eligibility, rules) matches Ok(Some(offer)) ==> offer.expected_identity
            == eligibility->Ok_0.1 && offer.eligibility == eligibility->Ok_0.0 && offer.rules
            == rules->Ok_0.0,
{
}

/// A backend that keeps the program closed is no error: whichever of the two requests it refuses, there
/// is just no offer.
pub proof fn lemma_gated_programs_are_hidden(
    eligibility: Result<
        (PersistentReferralInviteEligibility, ReferralIdentity),
        ReferralRequestFailure,
    >,
    rules: Result<(ReferralEligibilityRules, ReferralIdentity), ReferralRequestFailure>,
)
    requires
        ({
            ||| eligibility matches Err(failure) && failure.is_gated()
            ||| eligibility is Ok && (rules matches Err(failure) && failure.is_gated())
        }),
    ensures
        loaded_offer(eligibility, rules) == Ok::<
            Option<PersistentReferralInviteOffer>,
            ReferralError,
        >(None),
{
}

/// What the backend's answer to an attempt leads to. An answer ends the request with what it holds, under
/// the identity that the attempt was sent for. A refusal with status 401 calls for a refresh; a refusal
/// with any other status, and a failure without one, end the request with that backend error.
pub proof fn lemma_only_unauthorized_attempts_are_repeated<T>(
    pinned: Option<ReferralIdentityView>,
    expected: Option<ReferralIdentityView>,
    identity: ReferralIdentityView,
    response: Result<T, RequestError>,
)
    ensures
        ({
            let next = next_phase(
                RequestPhaseView::Send { identity },
                pinned,
                expected,
                RequestEventView::Responded(response),
            );
            match response {
                Ok(answer) => next == RequestPhaseView::Done(Ok((answer, identity))),
                Err(error) => match error {
                    RequestError::UnexpectedStatus { status, .. } => if status == 401 {
                        next == RequestPhaseView::<T>::Recover
                    } else {
                        next == RequestPhaseView::<T>::Done(
                            Err(ReferralRequestFailure::Backend(error)),
                        )
                    },
                    RequestError::Other(_) => next == RequestPhaseView::<T>::Done(
                        Err(ReferralRequestFailure::Backend(error)),
                    ),
                },
            }
        }),
{
}

/// A request goes on to another attempt only where the backend answered every attempt so far with status
/// 401 and the credentials could be refreshed each time.
pub proof fn lemma_attempts_follow_only_unauthorized_answers<T>(
    expected: Option<ReferralIdentityView>,
    attempts: Seq<Attempt<T>>,
)
    requires
        phase_after(RequestPhaseView::LoadAuth, expected, attempts) is LoadAuth,
    ensures
        forall|i: int|
            0 <= i < attempts.len() ==> {
                &&& (#[trigger] attempts[i]).response matches Err(
                    RequestError::UnexpectedStatus { status, .. },
                ) && status == 401
                &&& attempts[i].client_built
                &&& attempts[i].recovered
            },
    decreases attempts.len(),
{
    if attempts.len() > 0 {
        let rest = attempts.drop_first();
        let phase = phase_after_attempt(RequestPhaseView::LoadAuth, expected, attempts[0]);
        if let RequestPhaseView::Done(outcome) = phase {
            lemma_done_stays_done(outcome, expected, rest);
        }
        lemma_attempts_follow_only_unauthorized_answers(expected, rest);
        assert forall|i: int| 0 <= i < attempts.len() implies {
            &&& (#[trigger] attempts[i]).response matches Err(
                RequestError::UnexpectedStatus { status, .. },
            ) && status == 401
            &&& attempts[i].client_built
            &&& attempts[i].recovered
        } by {
            if i > 0 {
                assert(rest[i - 1] == attempts[i]);
            }
        }
    }
}

/// How an attempt goes. Credentials that may not be used end the request before anything is sent, and so
/// does a client that cannot be built. What is sent ends the request with the answer or the backend's
/// error; only after status 401 there is a refresh, which leads to another attempt, or calls for a
/// sign-in where it fails.
pub proof fn lemma_how_an_attempt_goes<T>(
    expected: Option<ReferralIdentityView>,
    attempt: Attempt<T>,
)
    ensures
        ({
            let after = phase_after_attempt(RequestPhaseView::LoadAuth, expected, attempt);
            let refused = attempt.response matches Err(
                RequestError::UnexpectedStatus { status, .. },
            ) && status == 401;
            match attempt_identity(attempt.pinned, expected, attempt.auth) {
                Err(error) => after == RequestPhaseView::<T>::Done(
                    Err(ReferralRequestFailure::Session(error)),
                ),
                Ok(identity) => {
                    &&& !attempt.client_built ==> after == RequestPhaseView::<T>::Done(
                        Err(ReferralRequestFailure::ClientBuild),
                    )
                    &&& attempt.client_built && refused && attempt.recovered ==> after
                        == RequestPhaseView::<T>::LoadAuth
                    &&& attempt.client_built && refused && !attempt.recovered
                        ==> after == RequestPhaseView::<T>::Done(
                        Err(
                            ReferralRequestFailure::Session(
                                ReferralError::ChatGptAuthenticationRequired,
                            ),
                        ),
                    )
                    &&& attempt.client_built && !refused ==> after
                        == RequestPhaseView::<T>::Done(
                        match attempt.response {
                            Ok(answer) => Ok((answer, identity)),
                            Err(error) => Err(ReferralRequestFailure::Backend(error)),
                        },
                    )
                },
            }
        }),
{
}

/// Whose credentials can be used: those of a ChatGPT sign-in that name a user and an account. The user is
/// looked for first.
pub proof fn lemma_usable_credentials_name_user_and_account(auth: AccountAuth)
    ensures
        ({
            let user_named = auth.chatgpt_user_id matches Some(user) && user@ != ""@;
            let account_named = auth.account_id matches Some(account) && account@ != ""@;
            let result = identity_of(auth@);
            &&& result is Ok <==> auth.is_chatgpt_auth && user_named && account_named
            &&& result matches Ok(identity) ==> auth.chatgpt_user_id->Some_0@
                == identity.chatgpt_user_id && auth.account_id->Some_0@ == identity.account_id
            &&& !auth.is_chatgpt_auth ==> result == Err::<ReferralIdentityView, _>(
                ReferralError::ChatGptAuthenticationRequired,
            )
            &&& auth.is_chatgpt_auth && !user_named ==> result == Err::<ReferralIdentityView, _>(
                ReferralError::UserIdUnavailable,
            )
            &&& auth.is_chatgpt_auth && user_named && !account_named ==> result == Err::<
                ReferralIdentityView,
                _,
            >(ReferralError::AccountIdUnavailable)
        }),
{
    reveal_strlit("");
    if let Some(user) = auth.chatgpt_user_id {
        if user@.len() == 0 {
            assert(user@ =~= ""@);
        }
    }
    if let Some(account) = auth.account_id {
        if account@.len() == 0 {
            assert(account@ =~= ""@);
        }
    }
}

/// An attempt may be sent exactly if the credentials can be used and name the user and the account that
/// are pinned and, where an identity is expected, those that are expected. Other usable credentials mean
/// that the account has changed; without credentials a sign-in is called for.
pub proof fn lemma_attempts_need_the_pinned_account(
    pinned: Option<ReferralIdentityView>,
    expected: Option<ReferralIdentityView>,
    auth: AccountAuthView,
)
    ensures
        ({
            let result = attempt_identity(pinned, expected, Some(auth));
            match identity_of(auth) {
                Ok(identity) => {
                    let matches_pinned = pinned is Some && pinned->Some_0.chatgpt_user_id
                        == identity.chatgpt_user_id && pinned->Some_0.account_id
                        == identity.account_id;
                    let matches_expected = expected is None || (expected->Some_0.chatgpt_user_id
                        == identity.chatgpt_user_id && expected->Some_0.account_id
                        == identity.account_id);
                    &&& matches_pinned && matches_expected ==> result == Ok::<_, ReferralError>(
                        identity,
                    )
                    &&& !matches_pinned || !matches_expected ==> result == Err::<
                        ReferralIdentityView,
                        _,
                    >(ReferralError::AccountChanged)
                },
                Err(error) => result == Err::<ReferralIdentityView, _>(error),
            }
        }),
        attempt_identity(pinned, expected, None) == Err::<ReferralIdentityView, _>(
            ReferralError::ChatGptAuthenticationRequired,
        ),
        identity_to_pin(None) is None,
        identity_to_pin(Some(auth)) == match identity_of(auth) {
            Ok(identity) => Some(identity),
            Err(_) => None,
        },
{
}

/// How failures of the three requests are told. A failure of the session is told as it is. Status 403 on
/// the way to an offer means that there is none; any other backend failure is told by the request that
/// failed and its status, if there is one. For an invite status 403 is a failure like any other.
pub proof fn lemma_how_failures_are_told(
    error: RequestError,
    session: ReferralError,
    eligibility: PersistentReferralInviteEligibility,
    identity: ReferralIdentity,
)
    ensures
        ({
            let status = match error {
                RequestError::UnexpectedStatus { status, .. } => Some(status),
                RequestError::Other(_) => None,
            };
            let none = Ok::<Option<PersistentReferralInviteOffer>, ReferralError>(None);
            let backend = ReferralRequestFailure::Backend(error);
            let eligibility_failed = ReferralError::EligibilityRequestFailed {
                status_code: status,
            };
            let rules_failed = ReferralError::RulesRequestFailed { status_code: status };
            let invite_failed = ReferralError::InviteRequestFailed { status_code: status };
            &&& status == Some(403u16) ==> {
                &&& eligibility_step(Err(backend)) == EligibilityStep::Return(none)
                &&& offer_result(eligibility, identity, Err(backend)) == none
            }
            &&& status != Some(403u16) ==> {
                &&& eligibility_step(Err(backend)) == EligibilityStep::Return(
                    Err(eligibility_failed),
                )
                &&& offer_result(eligibility, identity, Err(backend)) == Err::<
                    Option<PersistentReferralInviteOffer>,
                    _,
                >(rules_failed)
            }
            &&& invite_error(backend) == invite_failed
        }),
        eligibility_step(Err(ReferralRequestFailure::Session(session))) == EligibilityStep::Return(
            Err(session),
        ),
        offer_result(eligibility, identity, Err(ReferralRequestFailure::Session(session))) == Err::<
            Option<PersistentReferralInviteOffer>,
            _,
        >(session),
        invite_error(ReferralRequestFailure::Session(session)) == session,
        eligibility_step(Err(ReferralRequestFailure::ClientBuild)) == EligibilityStep::Return(
            Err(ReferralError::EligibilityRequestFailed { status_code: None }),
        ),
        offer_result(eligibility, identity, Err(ReferralRequestFailure::ClientBuild)) == Err::<
            Option<PersistentReferralInviteOffer>,
            _,
        >(ReferralError::RulesRequestFailed { status_code: None }),
        invite_error(ReferralRequestFailure::ClientBuild) == (ReferralError::InviteRequestFailed {
            status_code: None,
        }),
{
}

/// An eligibility answer leads to the rules exactly if the offer is to be shown, and then for the identity
/// that the answer came for; the rules complete the offer with nothing changed.
pub proof fn lemma_how_an_offer_comes_together(
    eligibility: PersistentReferralInviteEligibility,
    identity: ReferralIdentity,
    rules: ReferralEligibilityRules,
    rules_identity: ReferralIdentity,
)
    ensures
        eligibility.should_show ==> eligibility_step(Ok((eligibility, identity))) == (
        EligibilityStep::LoadRules { eligibility, identity }),
        !eligibility.should_show ==> eligibility_step(Ok((eligibility, identity)))
            == EligibilityStep::Return(Ok(None)),
        offer_result(eligibility, identity, Ok((rules, rules_identity))) matches Ok(Some(offer))
            && offer.expected_identity == identity && offer.eligibility == eligibility
            && offer.rules == rules,
{
}

/// After a sync exactly the synced credentials may be used, as far as they can be used at all, and the
/// session still talks to the same backend.
pub proof fn lemma_sync_moves_only_the_identity(
    session: ReferralSessionView,
    cached: AccountAuthView,
    loaded: AccountAuthView,
)
    ensures
        ({
            let after = synced(session, Some(cached));
            let result = attempt_identity(after.pinned_identity, None, Some(loaded));
            &&& after.chatgpt_base_url == session.chatgpt_base_url
            &&& result is Ok <==> identity_of(loaded) is Ok && identity_of(cached) is Ok
                && identity_of(loaded)->Ok_0 == identity_of(cached)->Ok_0
            &&& attempt_identity(synced(session, None).pinned_identity, None, Some(loaded)) is Err
        }),
{
}

} // verus!
