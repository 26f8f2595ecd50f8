//! The requests in flight in the in-process runtime.
use vstd::multiset::Multiset;
use vstd::prelude::*;
use vstd::string::*;

use crate::event_delivery::{waits, waits_for_capacity, InProcessServerEvent, ServerNotification};
use crate::in_process::{InProcessEventDelivery, SendOutcome};
use crate::request_id::{RequestId, RequestIdView};
use crate::rpc_error::{RpcError, RpcErrorCode, RpcErrorView};

verus! {

/// A client request that waits for its reply. The slot names the caller's reply channel.
pub struct PendingRequest {
    pub id: RequestId,
    pub slot: u64,
}

/// The value of a [`PendingRequest`].
pub struct PendingView {
    pub id: RequestIdView,
    pub slot: u64,
}

impl View for PendingRequest {
    type V = PendingView;

    open spec fn view(&self) -> PendingView {
        PendingView { id: self.id@, slot: self.slot }
    }
}

/// An error reply to the request that waits in `slot`.
#[derive(Debug, Eq, PartialEq)]
pub struct ErrorReply {
    pub slot: u64,
    pub error: RpcError,
}

/// Whether the main loop goes on.
#[derive(Clone, Copy, Debug, Eq, PartialEq, Structural)]
pub enum LoopControl {
    Continue,
    Stop,
}

/// What polling the shutdown channel showed.
#[derive(Clone, Copy, Debug, Eq, PartialEq, Structural)]
pub enum ShutdownPoll {
    /// A shutdown was requested and its sender waits for an acknowledgement.
    Requested,
    /// Every client handle is gone.
    Disconnected,
    Empty,
}

/// What the runtime does with a client request.
#[derive(Debug, Eq, PartialEq)]
pub enum RequestStep {
    /// Offer it to the message processor.
    Forward,
    /// Answer it right away.
    Reject(ErrorReply),
}

/// What follows from offering a client request to the message processor.
#[derive(Debug, Eq, PartialEq)]
pub struct ForwardResult {
    pub reply: Option<ErrorReply>,
    pub control: LoopControl,
}

/// A message from the message processor, without its payload.
#[derive(Debug, Eq, PartialEq)]
pub enum OutgoingMessage {
    /// Successful reply to a client request.
    Response { id: RequestId },
    /// Error reply to a client request.
    Error { id: RequestId },
    /// Request from the server to the client.
    Request { id: RequestId },
    /// Notification to the client.
    Notification(ServerNotification),
}

/// What the runtime does with a message from the message processor.
#[derive(Debug, Eq, PartialEq)]
pub enum RouteStep {
    /// Hand the payload to the request that waits in `slot`.
    Reply { slot: u64 },
    /// No request waits for this reply.
    Unmatched,
    /// Offer the event to the client's queue, waiting for capacity where `wait` says so.
    Offer { event: InProcessServerEvent, wait: bool },
}

/// State of the main loop.
pub struct InProcessRuntime {
    pending: Vec<PendingRequest>,
    shutdown_requested: bool,
    acknowledge: bool,
    delivery: InProcessEventDelivery,
}

/// The value of an [`InProcessRuntime`].
pub struct RuntimeView {
    /// Requests in flight, oldest first.
    pub pending: Seq<PendingView>,
    /// Whether the client queue has been closed for shutdown.
    pub shutdown_requested: bool,
    /// Whether somebody waits for the end of the shutdown.
    pub acknowledge: bool,
    pub delivery: InProcessEventDelivery,
}

impl View for InProcessRuntime {
    type V = RuntimeView;

    closed spec fn view(&self) -> RuntimeView {
        RuntimeView {
            pending: self.pending@.map_values(|p: PendingRequest| p@),
            shutdown_requested: self.shutdown_requested,
            acknowledge: self.acknowledge,
            delivery: self.delivery,
        }
    }
}

/// Whether no identifier is in flight twice.
pub open spec fn distinct_ids(pending: Seq<PendingView>) -> bool {
    forall|i: int, j: int|
        0 <= i < j < pending.len() ==> (#[trigger] pending[i]).id != (#[trigger] pending[j]).id
}

/// Whether a request with this identifier is in flight.
pub open spec fn in_flight(pending: Seq<PendingView>, id: RequestIdView) -> bool {
    exists|i: int| 0 <= i < pending.len() && (#[trigger] pending[i]).id == id
}

/// Where the request with this identifier stands.
pub open spec fn position(pending: Seq<PendingView>, id: RequestIdView) -> int {
    choose|i: int| 0 <= i < pending.len() && (#[trigger] pending[i]).id == id
}

/// The reply slots of the requests in flight.
pub open spec fn slots(pending: Seq<PendingView>) -> Seq<u64> {
    pending.map_values(|p: PendingView| p.slot)
}

/// What happens to the requests in flight.
pub enum PendingInput {
    /// A client submits a request.
    Submit { id: RequestIdView, slot: u64 },
    /// The request's reply is due: the processor answered it or refused to take it.
    Settle { id: RequestIdView },
    /// The runtime ends.
    Finish,
}

/// The requests in flight after an input, and the slots that are answered by it.
pub open spec fn after_input(pending: Seq<PendingView>, input: PendingInput) -> (
    Seq<PendingView>,
    Seq<u64>,
) {
    match input {
        PendingInput::Submit { id, slot } => if in_flight(pending, id) {
            (pending, seq![slot])
        } else {
            (pending.push(PendingView { id, slot }), Seq::empty())
        },
        PendingInput::Settle { id } => if in_flight(pending, id) {
            (
                pending.remove(position(pending, id)),
                seq![pending[position(pending, id)].slot],
            )
        } else {
            (pending, Seq::empty())
        },
        PendingInput::Finish => (Seq::empty(), slots(pending)),
    }
}

/// The error for a request whose identifier is in flight already.
pub open spec fn duplicate_request_error(id: RequestIdView) -> RpcErrorView {
    RpcErrorView {
        code: RpcErrorCode::InvalidRequest,
        message: "duplicate request id: "@ + id.debug_text(),
    }
}

/// The error for a request that the message processor did not take.
pub open spec fn not_forwarded_error(outcome: SendOutcome) -> RpcErrorView {
    if outcome == SendOutcome::Full {
        RpcErrorView {
            code: RpcErrorCode::Overloaded,
            message: "in-process app-server request queue is full"@,
        }
    } else {
        RpcErrorView {
            code: RpcErrorCode::Internal,
            message: "in-process app-server request processor is closed"@,
        }
    }
}

/// The error for everything that is still open when the runtime ends.
pub open spec fn shutting_down_view() -> RpcErrorView {
    RpcErrorView {
        code: RpcErrorCode::Internal,
        message: "in-process app-server runtime is shutting down"@,
    }
}

/// The error for everything that is still open when the runtime ends.
pub fn shutting_down_error() -> (error: RpcError)
    ensures
        error@ == shutting_down_view(),
{
    RpcError::new(RpcErrorCode::Internal, "in-process app-server runtime is shutting down")
}

/// Whether the loop goes on after offering a client notification to the message processor, and
/// whether the notification was dropped.
pub fn notification_forwarded(outcome: SendOutcome) -> (result: (LoopControl, bool))
    ensures
        result.0 == if outcome == SendOutcome::Closed {
            LoopControl::Stop
        } else {
            LoopControl::Continue
        },
        result.1 == (outcome == SendOutcome::Full),
{
    match outcome {
        SendOutcome::Sent => (LoopControl::Continue, false),
        SendOutcome::Full => (LoopControl::Continue, true),
        SendOutcome::Closed => (LoopControl::Stop, false),
    }
}

impl InProcessRuntime {
    /// No identifier is in flight twice, and only a shutdown that was requested is acknowledged.
    pub open spec fn well_formed(&self) -> bool {
        distinct_ids(self@.pending) && (self@.acknowledge ==> self@.shutdown_requested)
    }

    /// A runtime with nothing in flight.
    pub fn new(delivery: InProcessEventDelivery) -> (runtime: Self)
        ensures
            runtime.well_formed(),
            runtime@ == (RuntimeView {
                pending: Seq::empty(),
                shutdown_requested: false,
                acknowledge: false,
                delivery,
            }),
    {
        let runtime = InProcessRuntime {
            pending: Vec::new(),
            shutdown_requested: false,
            acknowledge: false,
            delivery,
        };
        proof {
            assert(runtime@.pending =~= Seq::empty());
        }
        runtime
    }

    /// Whether the loop still listens for a shutdown request.
    pub fn listens_for_shutdown(&self) -> (listens: bool)
        ensures
            listens == !self@.shutdown_requested,
            listens == awaits_shutdown(self@),
    {
        !self.shutdown_requested
    }

    /// Whether the end of the shutdown has to be acknowledged.
    pub fn acknowledges_shutdown(&self) -> (due: bool)
        ensures
            due == self@.acknowledge,
    {
        self.acknowledge
    }

    /// Handles what polling the shutdown channel showed. Returns whether to close the client
    /// queue, so that what was accepted before is still drained and nothing more is accepted.
    pub fn shutdown_polled(&mut self, poll: ShutdownPoll) -> (close_client_queue: bool)
        requires
            old(self).well_formed(),
        ensures
            final(self).well_formed(),
            close_client_queue == (!old(self)@.shutdown_requested && poll != ShutdownPoll::Empty),
            final(self)@ == (RuntimeView {
                shutdown_requested: old(self)@.shutdown_requested || poll != ShutdownPoll::Empty,
                acknowledge: old(self)@.acknowledge || close_client_queue && poll
                    == ShutdownPoll::Requested,
                ..old(self)@
            }),
    {
        if self.shutdown_requested {
            return false;
        }
        match poll {
            ShutdownPoll::Requested => {
                self.shutdown_requested = true;
                self.acknowledge = true;
                true
            },
            ShutdownPoll::Disconnected => {
                self.shutdown_requested = true;
                true
            },
            ShutdownPoll::Empty => false,
        }
    }

    /// Handles the next item of the shutdown channel: a request that wants an acknowledgement, or
    /// its end. The client queue is closed afterwards.
    pub fn shutdown_received(&mut self, acknowledge: bool)
        requires
            old(self).well_formed(),
            !old(self)@.shutdown_requested,
        ensures
            final(self).well_formed(),
            final(self)@ == (RuntimeView { shutdown_requested: true, acknowledge, ..old(self)@ }),
    {
        self.shutdown_requested = true;
        self.acknowledge = acknowledge;
    }

    fn find(&self, id: &RequestId) -> (found: Option<usize>)
        requires
            self.well_formed(),
        ensures
            found is Some <==> in_flight(self@.pending, id@),
            found matches Some(i) ==> i < self.pending@.len() && i == position(
                self@.pending,
                id@,
            ),
    {
        let mut i: usize = 0;
        while i < self.pending.len()
            invariant
                self.well_formed(),
                i <= self.pending@.len(),
                forall|j: int| 0 <= j < i ==> (#[trigger] self@.pending[j]).id != id@,
            decreases self.pending@.len() - i,
        {
            proof {
                assert(self@.pending[i as int] == self.pending@[i as int]@);
            }
            if self.pending[i].id.same(id) {
                proof {
                    assert(self@.pending[i as int].id == id@);
                    let k = position(self@.pending, id@);
                    assert(self@.pending[k].id == id@);
                    assert(k == i) by {
                        if k < i {
                            assert(self@.pending[k].id != self@.pending[i as int].id);
                        } else if k > i {
                            assert(self@.pending[i as int].id != self@.pending[k].id);
                        }
                    }
                }
                return Some(i);
            }
            i += 1;
        }
        None
    }

    /// Accepts a client request. A reused identifier is answered at once; any other request is in
    /// flight from now on and goes to the message processor.
    pub fn client_request(&mut self, id: &RequestId, slot: u64) -> (step: RequestStep)
        requires
            old(self).well_formed(),
        ensures
            final(self).well_formed(),
            final(self)@ == (RuntimeView {
                pending: after_input(
                    old(self)@.pending,
                    PendingInput::Submit { id: id@, slot },
                ).0,
                ..old(self)@
            }),
            in_flight(old(self)@.pending, id@) <==> step is Reject,
            step matches RequestStep::Reject(reply) ==> reply.slot == slot && reply.error@
                == duplicate_request_error(id@),
    {
        match self.find(id) {
            Some(_) => RequestStep::Reject(
                ErrorReply {
                    slot,
                    error: RpcError {
                        code: RpcErrorCode::InvalidRequest,
                        message: "duplicate request id: ".to_owned().concat(
                            id.debug_text().as_str(),
                        ),
                    },
                },
            ),
            None => {
                self.pending.push(PendingRequest { id: id.clone(), slot });
                proof {
                    assert(self@.pending =~= old(self)@.pending.push(PendingView { id: id@, slot }));
                }
                RequestStep::Forward
            },
        }
    }

    /// Takes the request with this identifier out of flight and returns its slot.
    fn settle(&mut self, id: &RequestId) -> (slot: Option<u64>)
        requires
            old(self).well_formed(),
        ensures
            final(self).well_formed(),
            final(self)@ == (RuntimeView {
                pending: after_input(old(self)@.pending, PendingInput::Settle { id: id@ }).0,
                ..old(self)@
            }),
            after_input(old(self)@.pending, PendingInput::Settle { id: id@ }).1 == match slot {
                Some(slot) => seq![slot],
                None => Seq::empty(),
            },
            slot is Some <==> in_flight(old(self)@.pending, id@),
    {
        match self.find(id) {
            Some(i) => {
                let request = self.pending.remove(i);
                proof {
                    assert(request@ == old(self)@.pending[i as int]);
                    assert(self@.pending =~= old(self)@.pending.remove(i as int));
                    lemma_removal_keeps_distinct(old(self)@.pending, i as int);
                }
                Some(request.slot)
            },
            None => None,
        }
    }

    /// Handles the outcome of offering a request to the message processor. One that it did not
    /// take is answered with an error; a closed processor ends the loop.
    pub fn request_forwarded(&mut self, id: &RequestId, outcome: SendOutcome) -> (result:
        ForwardResult)
        requires
            old(self).well_formed(),
        ensures
            final(self).well_formed(),
            result.control == if outcome == SendOutcome::Closed {
                LoopControl::Stop
            } else {
                LoopControl::Continue
            },
            outcome == SendOutcome::Sent ==> result.reply is None && final(self)@ == old(self)@,
            outcome != SendOutcome::Sent ==> {
                let next = after_input(old(self)@.pending, PendingInput::Settle { id: id@ });
                &&& final(self)@ == (RuntimeView { pending: next.0, ..old(self)@ })
                &&& next.1 == match result.reply {
                    Some(reply) => seq![reply.slot],
                    None => Seq::empty(),
                }
            },
            result.reply matches Some(reply) ==> reply.error@ == not_forwarded_error(outcome),
    {
        match outcome {
            SendOutcome::Sent => ForwardResult { reply: None, control: LoopControl::Continue },
            SendOutcome::Full => {
                let reply = match self.settle(id) {
                    Some(slot) => Some(
                        ErrorReply {
                            slot,
                            error: RpcError::new(
                                RpcErrorCode::Overloaded,
                                "in-process app-server request queue is full",
                            ),
                        },
                    ),
                    None => None,
                };
                ForwardResult { reply, control: LoopControl::Continue }
            },
            SendOutcome::Closed => {
                let reply = match self.settle(id) {
                    Some(slot) => Some(
                        ErrorReply {
                            slot,
                            error: RpcError::new(
                                RpcErrorCode::Internal,
                                "in-process app-server request processor is closed",
                            ),
                        },
                    ),
                    None => None,
                };
                ForwardResult { reply, control: LoopControl::Stop }
            },
        }
    }

    /// Routes a message from the message processor: a reply goes to the request that waits for it,
    /// anything else is offered to the client as an event.
    pub fn route_queued_message(&mut self, message: OutgoingMessage) -> (step: RouteStep)
        requires
            old(self).well_formed(),
        ensures
            final(self).well_formed(),
            match message {
                OutgoingMessage::Response { id } | OutgoingMessage::Error { id } => {
                    let next = after_input(old(self)@.pending, PendingInput::Settle { id: id@ });
                    &&& final(self)@ == (RuntimeView { pending: next.0, ..old(self)@ })
                    &&& !(step is Offer)
                    &&& next.1 == match step {
                        RouteStep::Reply { slot } => seq![slot],
                        _ => Seq::empty(),
                    }
                },
                OutgoingMessage::Request { id } => {
                    let event = InProcessServerEvent::ServerRequest { id };
                    &&& final(self)@ == old(self)@
                    &&& step == (RouteStep::Offer {
                        event,
                        wait: waits(old(self)@.delivery, event),
                    })
                },
                OutgoingMessage::Notification(notification) => {
                    let event = InProcessServerEvent::ServerNotification(notification);
                    &&& final(self)@ == old(self)@
                    &&& step == (RouteStep::Offer {
                        event,
                        wait: waits(old(self)@.delivery, event),
                    })
                },
            },
    {
        match message {
            OutgoingMessage::Response { id } | OutgoingMessage::Error { id } => {
                match self.settle(&id) {
                    Some(slot) => RouteStep::Reply { slot },
                    None => RouteStep::Unmatched,
                }
            },
            OutgoingMessage::Request { id } => {
                let event = InProcessServerEvent::ServerRequest { id };
                let wait = waits_for_capacity(self.delivery, &event);
                RouteStep::Offer { event, wait }
            },
            OutgoingMessage::Notification(notification) => {
                let event = InProcessServerEvent::ServerNotification(notification);
                let wait = waits_for_capacity(self.delivery, &event);
                RouteStep::Offer { event, wait }
            },
        }
    }

    /// Ends the runtime: every request still in flight is answered with the shutdown error.
    pub fn finish(&mut self) -> (replies: Vec<ErrorReply>)
        requires
            old(self).well_formed(),
        ensures
            final(self).well_formed(),
            final(self)@ == (RuntimeView {
                pending: after_input(old(self)@.pending, PendingInput::Finish).0,
                ..old(self)@
            }),
            replies@.map_values(|reply: ErrorReply| reply.slot) == after_input(
                old(self)@.pending,
                PendingInput::Finish,
            ).1,
            forall|i: int|
                0 <= i < replies@.len() ==> (#[trigger] replies@[i]).error@ == shutting_down_view(),
    {
        let mut replies: Vec<ErrorReply> = Vec::new();
        let mut i: usize = 0;
        while i < self.pending.len()
            invariant
                i <= self.pending@.len(),
                *self == *old(self),
                replies@.len() == i,
                forall|j: int|
                    0 <= j < i ==> (#[trigger] replies@[j]).slot == self.pending@[j].slot
                        && replies@[j].error@ == shutting_down_view(),
            decreases self.pending@.len() - i,
        {
            replies.push(ErrorReply { slot: self.pending[i].slot, error: shutting_down_error() });
            i += 1;
        }
        proof {
            assert(replies@.map_values(|reply: ErrorReply| reply.slot) =~= slots(
                old(self)@.pending,
            ));
        }
        self.pending = Vec::new();
        proof {
            assert(self@.pending =~= Seq::empty());
        }
        replies
    }
}

proof fn lemma_removal_keeps_distinct(pending: Seq<PendingView>, k: int)
    requires
        distinct_ids(pending),
        0 <= k < pending.len(),
    ensures
        distinct_ids(pending.remove(k)),
{
    let rest = pending.remove(k);
    assert forall|i: int, j: int| 0 <= i < j < rest.len() implies (#[trigger] rest[i]).id != (
    #[trigger] rest[j]).id by {
        let i2 = if i < k {
            i
        } else {
            i + 1
        };
        let j2 = if j < k {
            j
        } else {
            j + 1
        };
        assert(rest[i] == pending[i2] && rest[j] == pending[j2]);
    }
}

/// The requests in flight after a series of inputs, and the slots answered on the way.
pub open spec fn run(pending: Seq<PendingView>, inputs: Seq<PendingInput>) -> (
    Seq<PendingView>,
    Seq<u64>,
)
    decreases inputs.len(),
{
    if inputs.len() == 0 {
        (pending, Seq::empty())
    } else {
        let first = after_input(pending, inputs[0]);
        let rest = run(first.0, inputs.drop_first());
        (rest.0, first.1 + rest.1)
    }
}

/// The slots of the requests that are submitted in a series of inputs.
pub open spec fn submitted(inputs: Seq<PendingInput>) -> Seq<u64>
    decreases inputs.len(),
{
    if inputs.len() == 0 {
        Seq::empty()
    } else {
        let here = match inputs[0] {
            PendingInput::Submit { slot, .. } => seq![slot],
            _ => Seq::empty(),
        };
        here + submitted(inputs.drop_first())
    }
}

/// No sequence of inputs ever puts an identifier in flight twice.
pub proof fn lemma_ids_stay_distinct(pending: Seq<PendingView>, inputs: Seq<PendingInput>)
    requires
        distinct_ids(pending),
    ensures
        distinct_ids(run(pending, inputs).0),
    decreases inputs.len(),
{
    if inputs.len() > 0 {
        match inputs[0] {
            PendingInput::Settle { id } => {
                if in_flight(pending, id) {
                    let k = position(pending, id);
                    assert(pending[k].id == id);
                    lemma_removal_keeps_distinct(pending, k);
                }
            },
            _ => {},
        }
        lemma_ids_stay_distinct(after_input(pending, inputs[0]).0, inputs.drop_first());
    }
}

proof fn lemma_step_balances(pending: Seq<PendingView>, input: PendingInput)
    ensures
        ({
            let next = after_input(pending, input);
            slots(next.0).to_multiset().add(next.1.to_multiset()) == slots(
                pending,
            ).to_multiset().add(submitted(seq![input]).to_multiset())
        }),
{
    broadcast use vstd::seq_lib::group_to_multiset_ensures;
    let next = after_input(pending, input);
    assert(seq![input].drop_first() =~= Seq::<PendingInput>::empty());
    reveal_with_fuel(submitted, 2);
    match input {
        PendingInput::Submit { id, slot } => {
            assert(submitted(seq![input]) =~= Seq::<u64>::empty().push(slot));
            if !in_flight(pending, id) {
                assert(slots(next.0) =~= slots(pending).push(slot));
            } else {
                assert(next.1 =~= Seq::<u64>::empty().push(slot));
            }
        },
        PendingInput::Settle { id } => {
            assert(submitted(seq![input]) =~= Seq::<u64>::empty());
            if in_flight(pending, id) {
                let k = position(pending, id);
                assert(pending[k].id == id && 0 <= k < pending.len());
                assert(slots(next.0) =~= slots(pending).remove(k));
                assert(next.1 =~= Seq::<u64>::empty().push(slots(pending)[k]));
                assert(slots(pending).to_multiset().count(slots(pending)[k]) > 0) by {
                    assert(slots(pending).contains(slots(pending)[k]));
                }
            }
        },
        PendingInput::Finish => {
            assert(submitted(seq![input]) =~= Seq::<u64>::empty());
            assert(slots(next.0) =~= Seq::<u64>::empty());
        },
    }
    assert(slots(next.0).to_multiset().add(next.1.to_multiset()) =~= slots(
        pending,
    ).to_multiset().add(submitted(seq![input]).to_multiset()));
}

/// Requests are neither lost nor answered twice: at any time, the slots still waiting together with
/// those answered so far are exactly the slots submitted so far, each as often as it was submitted.
pub proof fn lemma_requests_balance(pending: Seq<PendingView>, inputs: Seq<PendingInput>)
    ensures
        slots(run(pending, inputs).0).to_multiset().add(run(pending, inputs).1.to_multiset())
            == slots(pending).to_multiset().add(submitted(inputs).to_multiset()),
    decreases inputs.len(),
{
    if inputs.len() > 0 {
        let first = after_input(pending, inputs[0]);
        let rest = run(first.0, inputs.drop_first());
        lemma_step_balances(pending, inputs[0]);
        lemma_requests_balance(first.0, inputs.drop_first());
        vstd::seq_lib::lemma_multiset_commutative(first.1, rest.1);
        let here = submitted(seq![inputs[0]]);
        assert(seq![inputs[0]].drop_first() =~= Seq::<PendingInput>::empty());
        reveal_with_fuel(submitted, 2);
        assert(submitted(inputs) =~= here + submitted(inputs.drop_first()));
        vstd::seq_lib::lemma_multiset_commutative(here, submitted(inputs.drop_first()));
        let left = slots(rest.0).to_multiset().add((first.1 + rest.1).to_multiset());
        let right = slots(pending).to_multiset().add(submitted(inputs).to_multiset());
        assert forall|v: u64| left.count(v) == right.count(v) by {
            let stepped = slots(first.0).to_multiset().add(first.1.to_multiset());
            assert(stepped.count(v) == slots(pending).to_multiset().add(here.to_multiset()).count(v));
            let ended = slots(rest.0).to_multiset().add(rest.1.to_multiset());
            assert(ended.count(v) == slots(first.0).to_multiset().add(
                submitted(inputs.drop_first()).to_multiset(),
            ).count(v));
        }
        assert(left =~= right);
    } else {
        assert(run(pending, inputs).1 =~= submitted(inputs));
    }
}

/// Every request that was accepted gets exactly one reply: once a runtime that started with nothing
/// in flight has finished, the answered slots are exactly the submitted ones.
pub proof fn lemma_every_request_is_answered_once(inputs: Seq<PendingInput>)
    ensures
        ({
            let all = inputs.push(PendingInput::Finish);
            &&& run(Seq::empty(), all).0.len() == 0
            &&& run(Seq::empty(), all).1.to_multiset() == submitted(inputs).to_multiset()
        }),
{
    let all = inputs.push(PendingInput::Finish);
    lemma_run_finish(Seq::empty(), inputs);
    lemma_requests_balance(Seq::empty(), all);
    lemma_submitted_push(inputs);
    broadcast use vstd::seq_lib::group_to_multiset_ensures;

    assert(slots(Seq::empty()) =~= Seq::<u64>::empty());
    assert(slots(run(Seq::empty(), all).0) =~= Seq::<u64>::empty());
    assert(Seq::<u64>::empty().to_multiset() =~= Multiset::empty());
    let answered = run(Seq::empty(), all).1.to_multiset();
    assert forall|v: u64| answered.count(v) == submitted(inputs).to_multiset().count(v) by {
        let left = slots(run(Seq::empty(), all).0).to_multiset().add(answered);
        let right = slots(Seq::empty()).to_multiset().add(submitted(all).to_multiset());
        assert(left.count(v) == right.count(v));
    }
    assert(answered =~= submitted(inputs).to_multiset());
}

proof fn lemma_run_finish(pending: Seq<PendingView>, inputs: Seq<PendingInput>)
    ensures
        run(pending, inputs.push(PendingInput::Finish)).0 == Seq::<PendingView>::empty(),
    decreases inputs.len(),
{
    let all = inputs.push(PendingInput::Finish);
    if inputs.len() == 0 {
        assert(all.drop_first() =~= Seq::<PendingInput>::empty());
        reveal_with_fuel(run, 2);
    } else {
        assert(all.drop_first() =~= inputs.drop_first().push(PendingInput::Finish));
        lemma_run_finish(after_input(pending, inputs[0]).0, inputs.drop_first());
    }
}

proof fn lemma_submitted_push(inputs: Seq<PendingInput>)
    ensures
        submitted(inputs.push(PendingInput::Finish)) == submitted(inputs),
    decreases inputs.len(),
{
    let all = inputs.push(PendingInput::Finish);
    if inputs.len() == 0 {
        assert(all.drop_first() =~= Seq::<PendingInput>::empty());
        reveal_with_fuel(submitted, 2);
        assert(submitted(all) =~= submitted(inputs));
    } else {
        assert(all.drop_first() =~= inputs.drop_first().push(PendingInput::Finish));
        lemma_submitted_push(inputs.drop_first());
        assert(all[0] == inputs[0]);
    }
}

/// A reply reaches the request it belongs to: whatever happens to other identifiers in between, a
/// request stays in flight under its own slot until its reply is due.
pub proof fn lemma_request_keeps_its_slot(
    pending: Seq<PendingView>,
    inputs: Seq<PendingInput>,
    id: RequestIdView,
    slot: u64,
)
    requires
        distinct_ids(pending),
        pending.contains(PendingView { id, slot }),
        forall|i: int|
            0 <= i < inputs.len() ==> (#[trigger] inputs[i]) != (PendingInput::Settle { id })
                && inputs[i] != PendingInput::Finish,
    ensures
        after_input(run(pending, inputs).0, PendingInput::Settle { id }).1 == seq![slot],
    decreases inputs.len(),
{
    let entry = PendingView { id, slot };
    let k = choose|k: int| 0 <= k < pending.len() && pending[k] == entry;
    assert(pending[k].id == id);
    if inputs.len() == 0 {
        let p = position(pending, id);
        assert(pending[p].id == id && 0 <= p < pending.len());
        assert(p == k) by {
            if p < k {
                assert(pending[p].id != pending[k].id);
            } else if k < p {
                assert(pending[k].id != pending[p].id);
            }
        }
    } else {
        let next = after_input(pending, inputs[0]).0;
        match inputs[0] {
            PendingInput::Submit { id: other, slot: other_slot } => {
                if !in_flight(pending, other) {
                    assert(next[k] == entry);
                }
            },
            PendingInput::Settle { id: other } => {
                assert(other != id);
                if in_flight(pending, other) {
                    let p = position(pending, other);
                    assert(pending[p].id == other && 0 <= p < pending.len());
                    lemma_removal_keeps_distinct(pending, p);
                    if p < k {
                        assert(next[k - 1] == entry);
                    } else {
                        assert(next[k] == entry);
                    }
                }
            },
            PendingInput::Finish => {},
        }
        assert(next.contains(entry));
        let rest = inputs.drop_first();
        assert forall|i: int| 0 <= i < rest.len() implies (#[trigger] rest[i]) != (
        PendingInput::Settle { id }) && rest[i] != PendingInput::Finish by {
            assert(rest[i] == inputs[i + 1]);
        }
        lemma_request_keeps_its_slot(next, rest, id, slot);
    }
}

/// Requests in flight change by one at a time and by nothing else: a new identifier joins at the end, a
/// reused one is answered in the slot of the repeated request and changes nothing, and a settled request
/// leaves with its own slot while all others keep their places.
pub proof fn lemma_requests_come_and_go_one_by_one(
    pending: Seq<PendingView>,
    id: RequestIdView,
    slot: u64,
    k: int,
)
    requires
        distinct_ids(pending),
    ensures
        (forall|i: int| 0 <= i < pending.len() ==> (#[trigger] pending[i]).id != id) ==> {
            let joined = after_input(pending, PendingInput::Submit { id, slot });
            let left = after_input(pending, PendingInput::Settle { id });
            &&& joined.0.len() == pending.len() + 1
            &&& joined.0.drop_last() == pending
            &&& joined.0.last() == (PendingView { id, slot })
            &&& joined.1.len() == 0
            &&& left.0 == pending
            &&& left.1.len() == 0
        },
        0 <= k < pending.len() && pending[k].id == id ==> {
            let repeated = after_input(pending, PendingInput::Submit { id, slot });
            let left = after_input(pending, PendingInput::Settle { id });
            &&& repeated.0 == pending
            &&& repeated.1 == seq![slot]
            &&& left.0 == pending.take(k) + pending.skip(k + 1)
            &&& left.1 == seq![pending[k].slot]
        },
        ({
            let finished = after_input(pending, PendingInput::Finish);
            &&& finished.0.len() == 0
            &&& finished.1.len() == pending.len()
            &&& forall|i: int| 0 <= i < pending.len() ==> finished.1[i] == (#[trigger] pending[i]).slot
        }),
{
    if forall|i: int| 0 <= i < pending.len() ==> (#[trigger] pending[i]).id != id {
        let joined = after_input(pending, PendingInput::Submit { id, slot });
        assert(joined.0.drop_last() =~= pending);
    }
    if 0 <= k < pending.len() && pending[k].id == id {
        let p = position(pending, id);
        assert(0 <= p < pending.len() && pending[p].id == id);
        assert(p == k) by {
            if p < k {
                assert(pending[p].id != pending[k].id);
            } else if k < p {
                assert(pending[k].id != pending[p].id);
            }
        }
        assert(pending.remove(k) =~= pending.take(k) + pending.skip(k + 1));
    }
}

/// Whether a runtime still listens for a shutdown request.
pub open spec fn awaits_shutdown(runtime: RuntimeView) -> bool {
    !runtime.shutdown_requested
}

/// What clients are told when a request cannot be carried out: a reused identifier is an invalid request
/// that names the identifier, a full processor is an overload, and a closed processor and the end of the
/// runtime are internal errors.
pub proof fn lemma_refusals_tell_their_reason(id: RequestIdView)
    ensures
        duplicate_request_error(id).code == RpcErrorCode::InvalidRequest,
        duplicate_request_error(id).message == "duplicate request id: "@ + id.debug_text(),
        not_forwarded_error(SendOutcome::Full).code == RpcErrorCode::Overloaded,
        not_forwarded_error(SendOutcome::Full).message
            == "in-process app-server request queue is full"@,
        not_forwarded_error(SendOutcome::Closed).code == RpcErrorCode::Internal,
        not_forwarded_error(SendOutcome::Closed).message
            == "in-process app-server request processor is closed"@,
        shutting_down_view().code == RpcErrorCode::Internal,
        shutting_down_view().message == "in-process app-server runtime is shutting down"@,
{
}

} // verus!
