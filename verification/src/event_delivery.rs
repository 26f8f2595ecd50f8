//! Delivery of server events to the embedded client under backpressure.
use vstd::prelude::*;

use crate::in_process::{InProcessEventDelivery, SendOutcome};
use crate::request_id::{RequestId, RequestIdView};
use crate::rpc_error::{RpcError, RpcErrorCode, RpcErrorView};

verus! {

/// A notification from the server, reduced to what its delivery depends on.
#[derive(Clone, Debug, Eq, PartialEq)]
pub enum ServerNotification {
    /// A turn has ended.
    TurnCompleted { thread_id: String, turn_id: String },
    /// An import of an external agent's configuration has ended.
    ExternalAgentConfigImportCompleted { import_id: String },
    /// A warning about the loaded configuration.
    ConfigWarning { summary: String },
    /// Any other notification; none of them ends a unit of work.
    Other { method: String },
}

impl ServerNotification {
    /// Whether the notification is terminal: the last word on some unit of work.
    pub open spec fn is_terminal(self) -> bool {
        self is TurnCompleted || self is ExternalAgentConfigImportCompleted
    }
}

/// Whether a notification must reach the client even when it has to wait: the terminal ones must.
pub fn server_notification_requires_delivery(notification: &ServerNotification) -> (required: bool)
    ensures
        required == notification.is_terminal(),
{
    match notification {
        ServerNotification::TurnCompleted { .. } => true,
        ServerNotification::ExternalAgentConfigImportCompleted { .. } => true,
        _ => false,
    }
}

/// Event emitted from the server to the in-process client.
#[derive(Clone, Debug, Eq, PartialEq)]
pub enum InProcessServerEvent {
    /// Server request that requires client response or rejection.
    ServerRequest { id: RequestId },
    /// Notification directed to the embedded client.
    ServerNotification(ServerNotification),
    /// Indicates one or more events were dropped due to backpressure.
    Lagged { skipped: usize },
}

/// Whether an event waits for queue capacity instead of being offered once.
pub open spec fn waits(delivery: InProcessEventDelivery, event: InProcessServerEvent) -> bool {
    delivery == InProcessEventDelivery::Lossless || (
    event matches InProcessServerEvent::ServerNotification(notification)
        && notification.is_terminal())
}

/// Whether an event waits for queue capacity instead of being offered once.
pub fn waits_for_capacity(
    delivery: InProcessEventDelivery,
    event: &InProcessServerEvent,
) -> (wait: bool)
    ensures
        wait == waits(delivery, *event),
{
    match delivery {
        InProcessEventDelivery::Lossless => true,
        InProcessEventDelivery::BestEffort => match event {
            InProcessServerEvent::ServerNotification(notification) =>
                server_notification_requires_delivery(notification),
            _ => false,
        },
    }
}

/// What follows from offering an event to the client's queue.
#[derive(Debug, Eq, PartialEq)]
pub struct EventDisposition {
    /// Server request to fail back into the message processor.
    pub failed: Option<(RequestId, RpcError)>,
    /// Whether a notification was lost.
    pub dropped: bool,
    /// Whether the client still consumes events.
    pub consumer_open: bool,
}

/// The value of an [`EventDisposition`].
pub struct EventDispositionView {
    pub failed: Option<(RequestIdView, RpcErrorView)>,
    pub dropped: bool,
    pub consumer_open: bool,
}

impl View for EventDisposition {
    type V = EventDispositionView;

    open spec fn view(&self) -> EventDispositionView {
        EventDispositionView {
            failed: match self.failed {
                Some((id, error)) => Some((id@, error@)),
                None => None,
            },
            dropped: self.dropped,
            consumer_open: self.consumer_open,
        }
    }
}

/// The error with which an undeliverable server request is failed back: overload when the queue
/// was full, an internal error when the consumer was gone.
pub open spec fn undeliverable(outcome: SendOutcome) -> RpcErrorView {
    if outcome == SendOutcome::Full {
        RpcErrorView {
            code: RpcErrorCode::Overloaded,
            message: "in-process server request queue is full"@,
        }
    } else {
        RpcErrorView {
            code: RpcErrorCode::Internal,
            message: "in-process server request consumer is closed"@,
        }
    }
}

/// What follows from offering `event` with the given outcome.
pub open spec fn disposition(
    event: InProcessServerEvent,
    outcome: SendOutcome,
) -> EventDispositionView {
    EventDispositionView {
        failed: match event {
            InProcessServerEvent::ServerRequest { id } if outcome != SendOutcome::Sent => Some(
                (id@, undeliverable(outcome)),
            ),
            _ => None,
        },
        dropped: !(event is ServerRequest) && outcome != SendOutcome::Sent,
        consumer_open: outcome != SendOutcome::Closed,
    }
}

/// Decides what follows from offering `event` to the client's queue. A server request that was not
/// queued is always failed back; anything else that was not queued is lost.
pub fn event_offered(event: InProcessServerEvent, outcome: SendOutcome) -> (result: EventDisposition)
    ensures
        result@ == disposition(event, outcome),
{
    let consumer_open = outcome != SendOutcome::Closed;
    match outcome {
        SendOutcome::Sent => EventDisposition { failed: None, dropped: false, consumer_open },
        SendOutcome::Full | SendOutcome::Closed => match event {
            InProcessServerEvent::ServerRequest { id } => {
                let error = if outcome == SendOutcome::Full {
                    RpcError::new(
                        RpcErrorCode::Overloaded,
                        "in-process server request queue is full",
                    )
                } else {
                    RpcError::new(
                        RpcErrorCode::Internal,
                        "in-process server request consumer is closed",
                    )
                };
                EventDisposition { failed: Some((id, error)), dropped: false, consumer_open }
            },
            _ => EventDisposition { failed: None, dropped: true, consumer_open },
        },
    }
}

/// One event offered to the client's queue, with the outcome.
pub struct Offer {
    pub event: InProcessServerEvent,
    pub outcome: SendOutcome,
}

/// Whether the offers could have happened: an event that waits for capacity never meets a full
/// queue.
pub open spec fn possible(delivery: InProcessEventDelivery, offers: Seq<Offer>) -> bool {
    forall|i: int|
        0 <= i < offers.len() && waits(delivery, (#[trigger] offers[i]).event)
            ==> offers[i].outcome != SendOutcome::Full
}

/// The events of a stream of offers that reach the client, in order. Nothing is offered once the
/// consumer has gone.
pub open spec fn delivered(offers: Seq<Offer>) -> Seq<InProcessServerEvent>
    decreases offers.len(),
{
    if offers.len() == 0 {
        Seq::empty()
    } else {
        let first = offers[0];
        if !disposition(first.event, first.outcome).consumer_open {
            Seq::empty()
        } else if first.outcome == SendOutcome::Sent {
            seq![first.event] + delivered(offers.drop_first())
        } else {
            delivered(offers.drop_first())
        }
    }
}

/// The server requests of a stream of offers that are failed back, in order.
pub open spec fn failed_back(offers: Seq<Offer>) -> Seq<RequestIdView>
    decreases offers.len(),
{
    if offers.len() == 0 {
        Seq::empty()
    } else {
        let first = offers[0];
        let result = disposition(first.event, first.outcome);
        let here = match result.failed {
            Some((id, _)) => seq![id],
            None => Seq::empty(),
        };
        if result.consumer_open {
            here + failed_back(offers.drop_first())
        } else {
            here
        }
    }
}

/// Whether the consumer is still there when offer `i` is made.
pub open spec fn reached(offers: Seq<Offer>, i: int) -> bool {
    &&& 0 <= i < offers.len()
    &&& forall|j: int| 0 <= j < i ==> (#[trigger] offers[j]).outcome != SendOutcome::Closed
}

/// Lossless delivery loses nothing and keeps the order: as long as the client consumes events, it
/// receives exactly the offered ones, in the order in which they were offered.
pub proof fn lemma_lossless_delivery_is_complete_and_ordered(offers: Seq<Offer>)
    requires
        possible(InProcessEventDelivery::Lossless, offers),
        forall|i: int|
            0 <= i < offers.len() ==> (#[trigger] offers[i]).outcome != SendOutcome::Closed,
    ensures
        delivered(offers) == offers.map_values(|offer: Offer| offer.event),
    decreases offers.len(),
{
    if offers.len() > 0 {
        let rest = offers.drop_first();
        assert(waits(InProcessEventDelivery::Lossless, offers[0].event));
        assert forall|i: int| 0 <= i < rest.len() implies (#[trigger] rest[i]).outcome
            != SendOutcome::Closed by {
            assert(rest[i] == offers[i + 1]);
        }
        assert(possible(InProcessEventDelivery::Lossless, rest)) by {
            assert forall|i: int|
                0 <= i < rest.len() && waits(
                    InProcessEventDelivery::Lossless,
                    (#[trigger] rest[i]).event,
                ) implies rest[i].outcome != SendOutcome::Full by {
                assert(rest[i] == offers[i + 1]);
            }
        }
        lemma_lossless_delivery_is_complete_and_ordered(rest);
        assert(delivered(offers) =~= offers.map_values(|offer: Offer| offer.event));
    } else {
        assert(delivered(offers) =~= offers.map_values(|offer: Offer| offer.event));
    }
}

proof fn lemma_reached_rest(offers: Seq<Offer>, i: int)
    requires
        reached(offers, i),
        i > 0,
    ensures
        reached(offers.drop_first(), i - 1),
        offers.drop_first()[i - 1] == offers[i],
        offers[0].outcome != SendOutcome::Closed,
{
    let rest = offers.drop_first();
    assert forall|j: int| 0 <= j < i - 1 implies (#[trigger] rest[j]).outcome
        != SendOutcome::Closed by {
        assert(rest[j] == offers[j + 1]);
    }
}

/// An event that was queued is among those the client receives.
proof fn lemma_sent_is_delivered(offers: Seq<Offer>, i: int)
    requires
        reached(offers, i),
        offers[i].outcome == SendOutcome::Sent,
    ensures
        delivered(offers).contains(offers[i].event),
    decreases offers.len(),
{
    if i == 0 {
        assert(delivered(offers)[0] == offers[0].event);
    } else {
        let rest = offers.drop_first();
        lemma_reached_rest(offers, i);
        lemma_sent_is_delivered(rest, i - 1);
        let k = choose|k: int|
            0 <= k < delivered(rest).len() && delivered(rest)[k] == offers[i].event;
        if offers[0].outcome == SendOutcome::Sent {
            assert(delivered(offers)[k + 1] == offers[i].event);
        } else {
            assert(delivered(offers)[k] == offers[i].event);
        }
    }
}

/// A terminal notification reaches the client under every delivery mode, unless the client has
/// stopped consuming events.
pub proof fn lemma_terminal_notifications_are_delivered(
    delivery: InProcessEventDelivery,
    offers: Seq<Offer>,
    i: int,
)
    requires
        possible(delivery, offers),
        reached(offers, i),
        offers[i].event matches InProcessServerEvent::ServerNotification(notification)
            && notification.is_terminal(),
        offers[i].outcome != SendOutcome::Closed,
    ensures
        delivered(offers).contains(offers[i].event),
{
    assert(waits(delivery, offers[i].event));
    lemma_sent_is_delivered(offers, i);
}

/// Server requests are never silently abandoned: each one that is offered either reaches the client
/// or is failed back.
pub proof fn lemma_server_requests_are_never_abandoned(offers: Seq<Offer>, i: int)
    requires
        reached(offers, i),
        offers[i].event is ServerRequest,
    ensures
        delivered(offers).contains(offers[i].event) || failed_back(offers).contains(
            offers[i].event->id@,
        ),
    decreases offers.len(),
{
    if offers[i].outcome == SendOutcome::Sent {
        lemma_sent_is_delivered(offers, i);
    } else if i == 0 {
        assert(failed_back(offers)[0] == offers[0].event->id@);
    } else {
        let rest = offers.drop_first();
        lemma_reached_rest(offers, i);
        lemma_server_requests_are_never_abandoned(rest, i - 1);
        let id = offers[i].event->id@;
        if failed_back(rest).contains(id) {
            let k = choose|k: int| 0 <= k < failed_back(rest).len() && failed_back(rest)[k] == id;
            let here = failed_back(offers).len() - failed_back(rest).len();
            assert(failed_back(offers)[k + here] == id);
        } else {
            let event = offers[i].event;
            let k = choose|k: int| 0 <= k < delivered(rest).len() && delivered(rest)[k] == event;
            if offers[0].outcome == SendOutcome::Sent {
                assert(delivered(offers)[k + 1] == event);
            } else {
                assert(delivered(offers)[k] == event);
            }
        }
    }
}

/// Under best-effort delivery only the end of a turn and the end of an import wait for capacity; under
/// lossless delivery everything does.
pub proof fn lemma_what_waits_for_capacity(event: InProcessServerEvent)
    ensures
        waits(InProcessEventDelivery::Lossless, event),
        waits(InProcessEventDelivery::BestEffort, event) <==> (
        event matches InProcessServerEvent::ServerNotification(notification) && (
        notification is TurnCompleted || notification is ExternalAgentConfigImportCompleted)),
{
}

/// Nothing happens to an event unnoticed: one that was queued has no consequence; a server request that
/// was not queued is failed under its own identifier, as an overload where the queue was full and as an
/// internal error where the client had gone; anything else that was not queued counts as dropped. Only a
/// closed queue means that the client has gone.
pub proof fn lemma_every_offer_is_accounted_for(event: InProcessServerEvent, outcome: SendOutcome)
    ensures
        ({
            let result = disposition(event, outcome);
            &&& result.consumer_open <==> outcome != SendOutcome::Closed
            &&& outcome == SendOutcome::Sent ==> result.failed is None && !result.dropped
            &&& outcome != SendOutcome::Sent ==> match event {
                InProcessServerEvent::ServerRequest { id } => {
                    &&& !result.dropped
                    &&& result.failed matches Some((failed, error))
                    &&& failed == id@
                    &&& outcome == SendOutcome::Full ==> error.code == RpcErrorCode::Overloaded
                        && error.message == "in-process server request queue is full"@
                    &&& outcome == SendOutcome::Closed ==> error.code == RpcErrorCode::Internal
                        && error.message == "in-process server request consumer is closed"@
                },
                _ => result.dropped && result.failed is None,
            }
        }),
{
}

} // verus!
