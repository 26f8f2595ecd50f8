//! The in-process runtime's main loop as one decision: an event comes in, an action goes out.
//!
//! The caller waits for the next event, lets the runtime decide, performs the action and reports what
//! came of it where the action asks for that.
use vstd::prelude::*;

use crate::event_delivery::{
    disposition, event_offered, waits, InProcessServerEvent,
};
use crate::in_process::{InProcessEventDelivery, SendOutcome};
use crate::request_id::{RequestId, RequestIdView};
use crate::rpc_error::{RpcError, RpcErrorCode, RpcErrorView};
use crate::runtime::{
    after_input, awaits_shutdown, distinct_ids, duplicate_request_error, in_flight,
    lemma_requests_balance, lemma_requests_come_and_go_one_by_one, not_forwarded_error,
    notification_forwarded, position, run, slots, submitted, InProcessRuntime, LoopControl,
    OutgoingMessage, PendingInput, PendingView, RequestStep, RouteStep, RuntimeView, ShutdownPoll,
};

verus! {

/// A message from the client, without its payload.
#[derive(Debug, Eq, PartialEq)]
pub enum ClientMessage {
    /// A request; `slot` names the caller's reply channel.
    Request { id: RequestId, slot: u64 },
    Notification,
    /// The client's answer to a server request.
    ServerRequestResponse { request_id: RequestId },
    /// The client's refusal of a server request.
    ServerRequestError { request_id: RequestId },
}

/// What the main loop learns.
#[derive(Debug, Eq, PartialEq)]
pub enum LoopEvent {
    ShutdownPolled(ShutdownPoll),
    /// The next item of the shutdown channel; without a sender to acknowledge it is the channel's
    /// end.
    ShutdownReceived { acknowledge: bool },
    ClientMessage(ClientMessage),
    /// The client queue is closed, and every message in it has been received.
    ClientQueueEnded,
    /// A request was offered to the message processor.
    RequestForwarded { id: RequestId, outcome: SendOutcome },
    /// A client notification was offered to the message processor.
    NotificationForwarded { outcome: SendOutcome },
    /// A message from the message processor.
    Outgoing(OutgoingMessage),
    /// The message processor sends nothing any more.
    OutgoingEnded,
    /// An event was offered to the client's queue.
    EventOffered { event: InProcessServerEvent, outcome: SendOutcome },
}

/// What the caller does next.
#[derive(Debug, Eq, PartialEq)]
pub enum LoopAction {
    /// Wait for the next event.
    Wait,
    CloseClientQueue,
    /// Offer the request to the message processor, and report the outcome.
    ForwardRequest,
    /// Offer the notification to the message processor, and report the outcome.
    ForwardNotification,
    /// Hand the client's answer to the server request.
    ResolveServerRequest { request_id: RequestId },
    /// Hand the client's refusal to the server request.
    RejectServerRequest { request_id: RequestId },
    /// Answer a request with an error.
    ReplyWithError { slot: u64, error: RpcError },
    /// Hand the processor's reply to the request that waits in `slot`.
    Reply { slot: u64 },
    /// Offer the event to the client's queue, waiting for capacity where `wait` says so, and report
    /// the outcome.
    OfferEvent { event: InProcessServerEvent, wait: bool },
    /// Fail a server request that did not reach the client.
    FailServerRequest { id: RequestId, error: RpcError },
    /// Tell that a client notification was dropped, because the message processor's queue was full.
    ReportDroppedNotification,
}

/// The value of a [`LoopAction`].
pub enum LoopActionView {
    Wait,
    CloseClientQueue,
    ForwardRequest,
    ForwardNotification,
    ResolveServerRequest { request_id: RequestIdView },
    RejectServerRequest { request_id: RequestIdView },
    ReplyWithError { slot: u64, error: RpcErrorView },
    Reply { slot: u64 },
    OfferEvent { event: InProcessServerEvent, wait: bool },
    FailServerRequest { id: RequestIdView, error: RpcErrorView },
    ReportDroppedNotification,
}

impl View for LoopAction {
    type V = LoopActionView;

    open spec fn view(&self) -> LoopActionView {
        match *self {
            LoopAction::Wait => LoopActionView::Wait,
            LoopAction::CloseClientQueue => LoopActionView::CloseClientQueue,
            LoopAction::ForwardRequest => LoopActionView::ForwardRequest,
            LoopAction::ForwardNotification => LoopActionView::ForwardNotification,
            LoopAction::ResolveServerRequest {
                request_id,
            } => LoopActionView::ResolveServerRequest { request_id: request_id@ },
            LoopAction::RejectServerRequest {
                request_id,
            } => LoopActionView::RejectServerRequest { request_id: request_id@ },
            LoopAction::ReplyWithError { slot, error } => LoopActionView::ReplyWithError {
                slot,
                error: error@,
            },
            LoopAction::Reply { slot } => LoopActionView::Reply { slot },
            LoopAction::OfferEvent { event, wait } => LoopActionView::OfferEvent { event, wait },
            LoopAction::FailServerRequest { id, error } => LoopActionView::FailServerRequest {
                id: id@,
                error: error@,
            },
            LoopAction::ReportDroppedNotification => LoopActionView::ReportDroppedNotification,
        }
    }
}

/// What an event does to the requests in flight.
pub open spec fn pending_input(event: LoopEvent) -> Option<PendingInput> {
    match event {
        LoopEvent::ClientMessage(ClientMessage::Request { id, slot }) => Some(
            PendingInput::Submit { id: id@, slot },
        ),
        LoopEvent::RequestForwarded { id, outcome } if outcome != SendOutcome::Sent => Some(
            PendingInput::Settle { id: id@ },
        ),
        LoopEvent::Outgoing(OutgoingMessage::Response { id }) => Some(
            PendingInput::Settle { id: id@ },
        ),
        LoopEvent::Outgoing(OutgoingMessage::Error { id }) => Some(
            PendingInput::Settle { id: id@ },
        ),
        _ => None,
    }
}

/// Whether an event asks for shutdown.
pub open spec fn asks_for_shutdown(event: LoopEvent) -> bool {
    match event {
        LoopEvent::ShutdownPolled(poll) => poll != ShutdownPoll::Empty,
        LoopEvent::ShutdownReceived { .. } => true,
        _ => false,
    }
}

/// The runtime after an event. Only the first request for shutdown counts.
pub open spec fn after_loop_event(runtime: RuntimeView, event: LoopEvent) -> RuntimeView {
    RuntimeView {
        pending: match pending_input(event) {
            Some(input) => after_input(runtime.pending, input).0,
            None => runtime.pending,
        },
        shutdown_requested: runtime.shutdown_requested || asks_for_shutdown(event),
        acknowledge: runtime.acknowledge || (!runtime.shutdown_requested && match event {
            LoopEvent::ShutdownPolled(poll) => poll == ShutdownPoll::Requested,
            LoopEvent::ShutdownReceived { acknowledge } => acknowledge,
            _ => false,
        }),
        ..runtime
    }
}

/// The slot of the request that is settled, if one with this identifier is in flight.
pub open spec fn settled_slot(pending: Seq<PendingView>, id: RequestIdView) -> Option<u64> {
    if in_flight(pending, id) {
        Some(pending[position(pending, id)].slot)
    } else {
        None
    }
}

/// The action that an event leads to.
pub open spec fn loop_action(runtime: RuntimeView, event: LoopEvent) -> LoopActionView {
    match event {
        LoopEvent::ShutdownPolled(_) | LoopEvent::ShutdownReceived { .. } => if asks_for_shutdown(
            event,
        ) && !runtime.shutdown_requested {
            LoopActionView::CloseClientQueue
        } else {
            LoopActionView::Wait
        },
        LoopEvent::ClientMessage(message) => match message {
            ClientMessage::Request { id, slot } => if in_flight(runtime.pending, id@) {
                LoopActionView::ReplyWithError { slot, error: duplicate_request_error(id@) }
            } else {
                LoopActionView::ForwardRequest
            },
            ClientMessage::Notification => LoopActionView::ForwardNotification,
            ClientMessage::ServerRequestResponse {
                request_id,
            } => LoopActionView::ResolveServerRequest { request_id: request_id@ },
            ClientMessage::ServerRequestError {
                request_id,
            } => LoopActionView::RejectServerRequest { request_id: request_id@ },
        },
        LoopEvent::RequestForwarded { id, outcome } => match settled_slot(runtime.pending, id@) {
            Some(slot) if outcome != SendOutcome::Sent => LoopActionView::ReplyWithError {
                slot,
                error: not_forwarded_error(outcome),
            },
            _ => LoopActionView::Wait,
        },
        LoopEvent::Outgoing(message) => match message {
            OutgoingMessage::Response { id } | OutgoingMessage::Error { id } =>
                match settled_slot(runtime.pending, id@) {
                    Some(slot) => LoopActionView::Reply { slot },
                    None => LoopActionView::Wait,
                },
            OutgoingMessage::Request { id } => {
                let event = InProcessServerEvent::ServerRequest { id };
                LoopActionView::OfferEvent { event, wait: waits(runtime.delivery, event) }
            },
            OutgoingMessage::Notification(notification) => {
                let event = InProcessServerEvent::ServerNotification(notification);
                LoopActionView::OfferEvent { event, wait: waits(runtime.delivery, event) }
            },
        },
        LoopEvent::EventOffered { event, outcome } => match disposition(event, outcome).failed {
            Some((id, error)) => LoopActionView::FailServerRequest { id, error },
            None => LoopActionView::Wait,
        },
        LoopEvent::NotificationForwarded { outcome } => if outcome == SendOutcome::Full {
            LoopActionView::ReportDroppedNotification
        } else {
            LoopActionView::Wait
        },
        LoopEvent::ClientQueueEnded | LoopEvent::OutgoingEnded => LoopActionView::Wait,
    }
}

/// Whether an event ends the main loop: every message of the client has been received, the message
/// processor is gone, or the client consumes no more events.
pub open spec fn ends_loop(event: LoopEvent) -> bool {
    match event {
        LoopEvent::ClientQueueEnded | LoopEvent::OutgoingEnded => true,
        LoopEvent::RequestForwarded { outcome, .. } => outcome == SendOutcome::Closed,
        LoopEvent::NotificationForwarded { outcome } => outcome == SendOutcome::Closed,
        LoopEvent::EventOffered { outcome, .. } => outcome == SendOutcome::Closed,
        _ => false,
    }
}

impl InProcessRuntime {
    /// Decides on one event: what to do, and whether the main loop goes on.
    pub fn advance(&mut self, event: LoopEvent) -> (step: (LoopAction, LoopControl))
        requires
            old(self).well_formed(),
        ensures
            final(self).well_formed(),
            final(self)@ == after_loop_event(old(self)@, event),
            step.0@ == loop_action(old(self)@, event),
            step.1 == if ends_loop(event) {
                LoopControl::Stop
            } else {
                LoopControl::Continue
            },
    {
        match event {
            LoopEvent::ShutdownPolled(poll) => {
                if self.shutdown_polled(poll) {
                    (LoopAction::CloseClientQueue, LoopControl::Continue)
                } else {
                    (LoopAction::Wait, LoopControl::Continue)
                }
            },
            LoopEvent::ShutdownReceived { acknowledge } => {
                if self.listens_for_shutdown() {
                    self.shutdown_received(acknowledge);
                    (LoopAction::CloseClientQueue, LoopControl::Continue)
                } else {
                    (LoopAction::Wait, LoopControl::Continue)
                }
            },
            LoopEvent::ClientMessage(message) => {
                let action = match message {
                    ClientMessage::Request { id, slot } => match self.client_request(&id, slot) {
                        RequestStep::Forward => LoopAction::ForwardRequest,
                        RequestStep::Reject(reply) => LoopAction::ReplyWithError {
                            slot: reply.slot,
                            error: reply.error,
                        },
                    },
                    ClientMessage::Notification => LoopAction::ForwardNotification,
                    ClientMessage::ServerRequestResponse {
                        request_id,
                    } => LoopAction::ResolveServerRequest { request_id },
                    ClientMessage::ServerRequestError {
                        request_id,
                    } => LoopAction::RejectServerRequest { request_id },
                };
                (action, LoopControl::Continue)
            },
            LoopEvent::ClientQueueEnded => (LoopAction::Wait, LoopControl::Stop),
            LoopEvent::RequestForwarded { id, outcome } => {
                let result = self.request_forwarded(&id, outcome);
                let action = match result.reply {
                    Some(reply) => {
                        proof {
                            let settled = after_input(
                                old(self)@.pending,
                                PendingInput::Settle { id: id@ },
                            ).1;
                            assert(settled.len() == 1 && settled[0] == reply.slot);
                        }
                        LoopAction::ReplyWithError { slot: reply.slot, error: reply.error }
                    },
                    None => {
                        proof {
                            let settled = after_input(
                                old(self)@.pending,
                                PendingInput::Settle { id: id@ },
                            ).1;
                            if outcome != SendOutcome::Sent && in_flight(old(self)@.pending, id@) {
                                assert(settled.len() == 1);
                            }
                        }
                        LoopAction::Wait
                    },
                };
                (action, result.control)
            },
            LoopEvent::NotificationForwarded { outcome } => {
                let (control, dropped) = notification_forwarded(outcome);
                if dropped {
                    (LoopAction::ReportDroppedNotification, control)
                } else {
                    (LoopAction::Wait, control)
                }
            },
            LoopEvent::Outgoing(message) => {
                let ghost sent = message;
                let step = self.route_queued_message(message);
                let ghost routed = step;
                proof {
                    match sent {
                        OutgoingMessage::Response { id } | OutgoingMessage::Error { id } => {
                            let settled = after_input(
                                old(self)@.pending,
                                PendingInput::Settle { id: id@ },
                            ).1;
                            match routed {
                                RouteStep::Reply { slot } => assert(settled[0] == seq![slot][0]),
                                _ => assert(settled.len() == 0),
                            }
                        },
                        _ => {},
                    }
                }
                let action = match step {
                    RouteStep::Reply { slot } => LoopAction::Reply { slot },
                    RouteStep::Unmatched => LoopAction::Wait,
                    RouteStep::Offer { event, wait } => LoopAction::OfferEvent { event, wait },
                };
                (action, LoopControl::Continue)
            },
            LoopEvent::OutgoingEnded => (LoopAction::Wait, LoopControl::Stop),
            LoopEvent::EventOffered { event, outcome } => {
                let result = event_offered(event, outcome);
                let control = if result.consumer_open {
                    LoopControl::Continue
                } else {
                    LoopControl::Stop
                };
                match result.failed {
                    Some((id, error)) => (LoopAction::FailServerRequest { id, error }, control),
                    None => (LoopAction::Wait, control),
                }
            },
        }
    }
}

/// The runtime after a series of events.
pub open spec fn after_loop_events(runtime: RuntimeView, events: Seq<LoopEvent>) -> RuntimeView
    decreases events.len(),
{
    if events.len() == 0 {
        runtime
    } else {
        after_loop_events(after_loop_event(runtime, events[0]), events.drop_first())
    }
}

/// What a series of events does to the requests in flight.
pub open spec fn pending_inputs(events: Seq<LoopEvent>) -> Seq<PendingInput>
    decreases events.len(),
{
    if events.len() == 0 {
        Seq::empty()
    } else {
        let rest = pending_inputs(events.drop_first());
        match pending_input(events[0]) {
            Some(input) => seq![input] + rest,
            None => rest,
        }
    }
}

/// The reply slot that the action for an event answers.
pub open spec fn answered_slot(action: LoopActionView) -> Seq<u64> {
    match action {
        LoopActionView::ReplyWithError { slot, .. } => seq![slot],
        LoopActionView::Reply { slot } => seq![slot],
        _ => Seq::empty(),
    }
}

/// The reply slots that are answered in a series of events.
pub open spec fn answered_slots(runtime: RuntimeView, events: Seq<LoopEvent>) -> Seq<u64>
    decreases events.len(),
{
    if events.len() == 0 {
        Seq::empty()
    } else {
        answered_slot(loop_action(runtime, events[0])) + answered_slots(
            after_loop_event(runtime, events[0]),
            events.drop_first(),
        )
    }
}

proof fn lemma_loop_is_a_run(runtime: RuntimeView, events: Seq<LoopEvent>)
    ensures
        (after_loop_events(runtime, events).pending, answered_slots(runtime, events)) == run(
            runtime.pending,
            pending_inputs(events),
        ),
    decreases events.len(),
{
    let inputs = pending_inputs(events);
    if events.len() > 0 {
        let event = events[0];
        let rest = events.drop_first();
        let next = after_loop_event(runtime, event);
        lemma_loop_is_a_run(next, rest);
        match pending_input(event) {
            Some(input) => {
                assert(inputs.drop_first() =~= pending_inputs(rest));
                assert(inputs[0] == input);
                assert(answered_slot(loop_action(runtime, event)) =~= after_input(
                    runtime.pending,
                    input,
                ).1);
            },
            None => {
                assert(answered_slot(loop_action(runtime, event)) =~= Seq::<u64>::empty());
                assert(answered_slots(runtime, events) =~= answered_slots(next, rest));
            },
        }
    }
}

/// The reply slots of the requests that clients send in a series of events.
pub open spec fn requested_slots(events: Seq<LoopEvent>) -> Seq<u64>
    decreases events.len(),
{
    if events.len() == 0 {
        Seq::empty()
    } else {
        let rest = requested_slots(events.drop_first());
        match events[0] {
            LoopEvent::ClientMessage(ClientMessage::Request { slot, .. }) => seq![slot] + rest,
            _ => rest,
        }
    }
}

proof fn lemma_requested_is_submitted(events: Seq<LoopEvent>)
    ensures
        requested_slots(events) == submitted(pending_inputs(events)),
    decreases events.len(),
{
    if events.len() > 0 {
        lemma_requested_is_submitted(events.drop_first());
        let inputs = pending_inputs(events);
        match pending_input(events[0]) {
            Some(input) => {
                assert(inputs.drop_first() =~= pending_inputs(events.drop_first()));
                assert(inputs[0] == input);
                assert(requested_slots(events) =~= submitted(inputs));
            },
            None => {},
        }
    }
}

/// Every request that the main loop receives is answered exactly once, by the loop or by the end of
/// the runtime: whatever happens in between, the slots answered in the loop together with those that
/// are answered when the runtime finishes are exactly the slots of the requests received.
pub proof fn lemma_received_requests_are_answered_once(
    delivery: InProcessEventDelivery,
    events: Seq<LoopEvent>,
)
    ensures
        ({
            let start = RuntimeView {
                pending: Seq::empty(),
                shutdown_requested: false,
                acknowledge: false,
                delivery,
            };
            let end = after_loop_events(start, events);
            answered_slots(start, events).to_multiset().add(
                after_input(end.pending, PendingInput::Finish).1.to_multiset(),
            ) == requested_slots(events).to_multiset()
        }),
{
    let start = RuntimeView {
        pending: Seq::empty(),
        shutdown_requested: false,
        acknowledge: false,
        delivery,
    };
    let inputs = pending_inputs(events);
    let end = after_loop_events(start, events);
    lemma_loop_is_a_run(start, events);
    lemma_requested_is_submitted(events);
    lemma_requests_balance(Seq::empty(), inputs);
    broadcast use vstd::seq_lib::group_to_multiset_ensures;

    let answered = answered_slots(start, events).to_multiset();
    let left = answered.add(slots(end.pending).to_multiset());
    let right = requested_slots(events).to_multiset();
    assert(slots(Seq::empty()) =~= Seq::<u64>::empty());
    assert forall|v: u64| left.count(v) == right.count(v) by {
        let balance = slots(run(Seq::empty(), inputs).0).to_multiset().add(
            run(Seq::empty(), inputs).1.to_multiset(),
        );
        assert(balance.count(v) == slots(Seq::empty()).to_multiset().add(
            submitted(inputs).to_multiset(),
        ).count(v));
    }
    assert(left =~= right);
}

/// A shutdown closes the client queue and does not end the loop: what clients sent before is still
/// received and handled, and the loop ends by itself only once the queue has nothing left.
pub proof fn lemma_shutdown_drains_accepted_messages(
    runtime: RuntimeView,
    event: LoopEvent,
    message: ClientMessage,
)
    requires
        asks_for_shutdown(event),
        !runtime.shutdown_requested,
    ensures
        loop_action(runtime, event) == LoopActionView::CloseClientQueue,
        !ends_loop(event),
        after_loop_event(runtime, event) == (RuntimeView {
            shutdown_requested: true,
            acknowledge: after_loop_event(runtime, event).acknowledge,
            ..runtime
        }),
        loop_action(after_loop_event(runtime, event), LoopEvent::ClientMessage(message))
            == loop_action(runtime, LoopEvent::ClientMessage(message)),
        !ends_loop(LoopEvent::ClientMessage(message)),
        ends_loop(LoopEvent::ClientQueueEnded),
{
}

/// The client queue is closed once: further requests for shutdown change nothing.
pub proof fn lemma_shutdown_is_requested_once(runtime: RuntimeView, event: LoopEvent)
    requires
        asks_for_shutdown(event),
        runtime.shutdown_requested,
    ensures
        loop_action(runtime, event) == LoopActionView::Wait,
        after_loop_event(runtime, event) == runtime,
{
}

/// Nothing that the message processor sends to the client is lost in the main loop: a notification or a
/// server request is offered as exactly that event, and changes nothing else. It waits for capacity under
/// lossless delivery, and under any delivery where it ends a turn or an import.
pub proof fn lemma_sent_events_are_offered(runtime: RuntimeView, message: OutgoingMessage)
    ensures
        message matches OutgoingMessage::Notification(notification) ==> loop_action(
            runtime,
            LoopEvent::Outgoing(message),
        ) == (LoopActionView::OfferEvent {
            event: InProcessServerEvent::ServerNotification(notification),
            wait: runtime.delivery == InProcessEventDelivery::Lossless
                || notification is TurnCompleted
                || notification is ExternalAgentConfigImportCompleted,
        }),
        message matches OutgoingMessage::Request { id } ==> loop_action(
            runtime,
            LoopEvent::Outgoing(message),
        ) == (LoopActionView::OfferEvent {
            event: InProcessServerEvent::ServerRequest { id },
            wait: runtime.delivery == InProcessEventDelivery::Lossless,
        }),
        message is Notification || message is Request ==> after_loop_event(
            runtime,
            LoopEvent::Outgoing(message),
        ) == runtime,
        !ends_loop(LoopEvent::Outgoing(message)),
{
}

/// A reply goes to the request that it belongs to: whichever request is in flight under the identifier,
/// its slot is answered and it alone leaves. A reply to nobody is ignored.
pub proof fn lemma_replies_reach_their_request(
    runtime: RuntimeView,
    message: OutgoingMessage,
    id: RequestId,
    k: int,
)
    requires
        distinct_ids(runtime.pending),
        message == (OutgoingMessage::Response { id }) || message == (OutgoingMessage::Error { id }),
    ensures
        0 <= k < runtime.pending.len() && runtime.pending[k].id == id@ ==> loop_action(
            runtime,
            LoopEvent::Outgoing(message),
        ) == (LoopActionView::Reply { slot: runtime.pending[k].slot }) && after_loop_event(
            runtime,
            LoopEvent::Outgoing(message),
        ) == (RuntimeView {
            pending: runtime.pending.take(k) + runtime.pending.skip(k + 1),
            ..runtime
        }),
        (forall|i: int|
            0 <= i < runtime.pending.len() ==> (#[trigger] runtime.pending[i]).id != id@)
            ==> loop_action(runtime, LoopEvent::Outgoing(message)) == LoopActionView::Wait
            && after_loop_event(runtime, LoopEvent::Outgoing(message)) == runtime,
{
    lemma_requests_come_and_go_one_by_one(runtime.pending, id@, 0, k);
}

/// A request under a new identifier is in flight from now on and goes to the message processor; one under
/// an identifier that is in flight is refused in its own slot, and the request in flight stays.
pub proof fn lemma_requests_are_forwarded_or_refused(
    runtime: RuntimeView,
    id: RequestId,
    slot: u64,
    k: int,
)
    requires
        distinct_ids(runtime.pending),
    ensures
        ({
            let event = LoopEvent::ClientMessage(ClientMessage::Request { id, slot });
            &&& (forall|i: int|
                0 <= i < runtime.pending.len() ==> (#[trigger] runtime.pending[i]).id != id@) ==> {
                &&& loop_action(runtime, event) == LoopActionView::ForwardRequest
                &&& after_loop_event(runtime, event) == (RuntimeView {
                    pending: runtime.pending.push(PendingView { id: id@, slot }),
                    ..runtime
                })
            }
            &&& 0 <= k < runtime.pending.len() && runtime.pending[k].id == id@ ==> {
                &&& loop_action(runtime, event) matches LoopActionView::ReplyWithError {
                    slot: refused,
                    error,
                }
                &&& refused == slot
                &&& error.code == RpcErrorCode::InvalidRequest
                &&& error.message == "duplicate request id: "@ + id@.debug_text()
                &&& after_loop_event(runtime, event) == runtime
            }
        }),
{
    lemma_requests_come_and_go_one_by_one(runtime.pending, id@, slot, k);
}

/// A request that the message processor did not take is answered in its own slot and leaves: with an
/// overload where its queue was full, with an internal error where it had gone, and only then the loop
/// ends. One that it took stays in flight.
pub proof fn lemma_untaken_requests_are_answered(
    runtime: RuntimeView,
    id: RequestId,
    outcome: SendOutcome,
    k: int,
)
    requires
        distinct_ids(runtime.pending),
        0 <= k < runtime.pending.len(),
        runtime.pending[k].id == id@,
    ensures
        ({
            let event = LoopEvent::RequestForwarded { id, outcome };
            &&& ends_loop(event) <==> outcome == SendOutcome::Closed
            &&& outcome == SendOutcome::Sent ==> loop_action(runtime, event) == LoopActionView::Wait
                && after_loop_event(runtime, event) == runtime
            &&& outcome != SendOutcome::Sent ==> {
                &&& after_loop_event(runtime, event) == (RuntimeView {
                    pending: runtime.pending.take(k) + runtime.pending.skip(k + 1),
                    ..runtime
                })
                &&& loop_action(runtime, event) matches LoopActionView::ReplyWithError {
                    slot,
                    error,
                }
                &&& slot == runtime.pending[k].slot
                &&& outcome == SendOutcome::Full ==> error.code == RpcErrorCode::Overloaded
                    && error.message == "in-process app-server request queue is full"@
                &&& outcome == SendOutcome::Closed ==> error.code == RpcErrorCode::Internal
                    && error.message == "in-process app-server request processor is closed"@
            }
        }),
{
    lemma_requests_come_and_go_one_by_one(runtime.pending, id@, 0, k);
}

/// Whatever else a client sends is passed on: notifications to the message processor, answers and
/// refusals to the server request that they name. A notification is reported as dropped exactly where the
/// processor's queue was full. None of this touches the requests in flight.
pub proof fn lemma_other_messages_are_passed_on(
    runtime: RuntimeView,
    request_id: RequestId,
    outcome: SendOutcome,
)
    ensures
        ({
            let notification = LoopEvent::ClientMessage(ClientMessage::Notification);
            let response = LoopEvent::ClientMessage(
                ClientMessage::ServerRequestResponse { request_id },
            );
            let refusal = LoopEvent::ClientMessage(ClientMessage::ServerRequestError { request_id });
            let forwarded = LoopEvent::NotificationForwarded { outcome };
            &&& loop_action(runtime, notification) == LoopActionView::ForwardNotification
            &&& loop_action(runtime, response) == (LoopActionView::ResolveServerRequest {
                request_id: request_id@,
            })
            &&& loop_action(runtime, refusal) == (LoopActionView::RejectServerRequest {
                request_id: request_id@,
            })
            &&& loop_action(runtime, forwarded) is ReportDroppedNotification <==> outcome
                == SendOutcome::Full
            &&& outcome != SendOutcome::Full ==> loop_action(runtime, forwarded) is Wait
            &&& after_loop_event(runtime, notification) == runtime
            &&& after_loop_event(runtime, response) == runtime
            &&& after_loop_event(runtime, refusal) == runtime
            &&& after_loop_event(runtime, forwarded) == runtime
        }),
{
}

/// A server request that did not reach the client is failed under its own identifier, with an overload
/// where the client's queue was full and an internal error where the client had gone; nothing else that
/// was offered calls for an action.
pub proof fn lemma_unreached_server_requests_are_failed(
    runtime: RuntimeView,
    event: InProcessServerEvent,
    outcome: SendOutcome,
)
    ensures
        ({
            let action = loop_action(runtime, LoopEvent::EventOffered { event, outcome });
            &&& after_loop_event(runtime, LoopEvent::EventOffered { event, outcome }) == runtime
            &&& action is Wait <==> outcome == SendOutcome::Sent || !(event is ServerRequest)
            &&& outcome != SendOutcome::Sent ==> (event matches InProcessServerEvent::ServerRequest {
                id,
            } ==> {
                &&& action matches LoopActionView::FailServerRequest { id: failed, error }
                &&& failed == id@
                &&& outcome == SendOutcome::Full ==> error.code == RpcErrorCode::Overloaded
                    && error.message == "in-process server request queue is full"@
                &&& outcome == SendOutcome::Closed ==> error.code == RpcErrorCode::Internal
                    && error.message == "in-process server request consumer is closed"@
            })
        }),
{
}

/// The main loop ends for four reasons and no other: the client queue is used up, the message processor
/// has nothing more to send, it takes nothing more, or the client reads nothing more.
pub proof fn lemma_why_the_loop_ends(event: LoopEvent)
    ensures
        ends_loop(event) <==> {
            ||| event is ClientQueueEnded
            ||| event is OutgoingEnded
            ||| (event matches LoopEvent::RequestForwarded { outcome, .. } && outcome
                == SendOutcome::Closed)
            ||| (event matches LoopEvent::NotificationForwarded { outcome } && outcome
                == SendOutcome::Closed)
            ||| (event matches LoopEvent::EventOffered { outcome, .. } && outcome
                == SendOutcome::Closed)
        },
{
}

/// Shutdown is requested by a request on its channel or by the channel's end, and by nothing else. The
/// first of these closes the client queue, and it alone decides whether somebody waits for the end: a
/// request does, the channel's end does not.
pub proof fn lemma_who_waits_for_the_shutdown(runtime: RuntimeView, event: LoopEvent)
    ensures
        ({
            let after = after_loop_event(runtime, event);
            let asked = event == LoopEvent::ShutdownPolled(ShutdownPoll::Requested) || event
                == LoopEvent::ShutdownPolled(ShutdownPoll::Disconnected)
                || event is ShutdownReceived;
            let waits_for_end = event == LoopEvent::ShutdownPolled(ShutdownPoll::Requested)
                || event == (LoopEvent::ShutdownReceived { acknowledge: true });
            &&& after.shutdown_requested <==> runtime.shutdown_requested || asked
            &&& after.acknowledge <==> runtime.acknowledge || (!runtime.shutdown_requested
                && waits_for_end)
            &&& loop_action(runtime, event) is CloseClientQueue <==> asked
                && !runtime.shutdown_requested
            &&& after.delivery == runtime.delivery
        }),
{
}

/// The events that the message processor sends to the client, in order.
pub open spec fn sent_events(events: Seq<LoopEvent>) -> Seq<InProcessServerEvent>
    decreases events.len(),
{
    if events.len() == 0 {
        Seq::empty()
    } else {
        let rest = sent_events(events.drop_first());
        match events[0] {
            LoopEvent::Outgoing(OutgoingMessage::Notification(notification)) => seq![
                InProcessServerEvent::ServerNotification(notification),
            ] + rest,
            LoopEvent::Outgoing(OutgoingMessage::Request { id }) => seq![
                InProcessServerEvent::ServerRequest { id },
            ] + rest,
            _ => rest,
        }
    }
}

/// The event that an action offers to the client, and whether it waits for capacity.
pub open spec fn offered_event(action: LoopActionView) -> Seq<(InProcessServerEvent, bool)> {
    match action {
        LoopActionView::OfferEvent { event, wait } => seq![(event, wait)],
        _ => Seq::empty(),
    }
}

/// The events that the main loop offers to the client, in order.
pub open spec fn offered_events(runtime: RuntimeView, events: Seq<LoopEvent>) -> Seq<
    (InProcessServerEvent, bool),
>
    decreases events.len(),
{
    if events.len() == 0 {
        Seq::empty()
    } else {
        offered_event(loop_action(runtime, events[0])) + offered_events(
            after_loop_event(runtime, events[0]),
            events.drop_first(),
        )
    }
}

/// Lossless delivery in the main loop: exactly the events that the message processor sends are offered to
/// the client, in order, and every one of them waits for capacity.
pub proof fn lemma_lossless_loop_offers_everything_in_order(
    runtime: RuntimeView,
    events: Seq<LoopEvent>,
)
    requires
        runtime.delivery == InProcessEventDelivery::Lossless,
    ensures
        offered_events(runtime, events) == sent_events(events).map_values(
            |event: InProcessServerEvent| (event, true),
        ),
    decreases events.len(),
{
    if events.len() > 0 {
        let rest = events.drop_first();
        let next = after_loop_event(runtime, events[0]);
        lemma_lossless_loop_offers_everything_in_order(next, rest);
        let sent = sent_events(events).map_values(|event: InProcessServerEvent| (event, true));
        assert(offered_events(runtime, events) =~= sent);
    } else {
        assert(offered_events(runtime, events) =~= sent_events(events).map_values(
            |event: InProcessServerEvent| (event, true),
        ));
    }
}

/// Everything else leaves the requests in flight alone: shutdown requests and the ends of the two queues
/// answer nothing and forget nothing, and neither does word of a request that is no longer in flight.
pub proof fn lemma_other_events_answer_nothing(
    runtime: RuntimeView,
    event: LoopEvent,
    id: RequestId,
    outcome: SendOutcome,
)
    ensures
        event is ShutdownPolled || event is ShutdownReceived || event is ClientQueueEnded
            || event is OutgoingEnded ==> {
            &&& after_loop_event(runtime, event).pending == runtime.pending
            &&& loop_action(runtime, event) is Wait || loop_action(runtime, event) is CloseClientQueue
        },
        event is ClientQueueEnded || event is OutgoingEnded ==> after_loop_event(runtime, event)
            == runtime && loop_action(runtime, event) is Wait,
        (forall|i: int|
            0 <= i < runtime.pending.len() ==> (#[trigger] runtime.pending[i]).id != id@) ==> {
            let late = LoopEvent::RequestForwarded { id, outcome };
            loop_action(runtime, late) is Wait && after_loop_event(runtime, late) == runtime
        },
{
}

/// A runtime listens for a shutdown request exactly as long as one would still have an effect.
pub proof fn lemma_listening_ends_with_the_request(runtime: RuntimeView, acknowledge: bool)
    ensures
        awaits_shutdown(runtime) <==> loop_action(
            runtime,
            LoopEvent::ShutdownReceived { acknowledge },
        ) is CloseClientQueue,
        !awaits_shutdown(after_loop_event(runtime, LoopEvent::ShutdownReceived { acknowledge })),
        awaits_shutdown(runtime) ==> after_loop_event(
            runtime,
            LoopEvent::ShutdownReceived { acknowledge },
        ).acknowledge == (runtime.acknowledge || acknowledge),
{
}

} // verus!
