//! The end of the in-process runtime, after its main loop.
//!
//! The message processor ends first, then the outbound router; whatever they still send is routed as
//! in the main loop. Then the requests that are left are answered, and last of all the shutdown is
//! acknowledged.
use vstd::prelude::*;

use crate::event_delivery::InProcessServerEvent;
use crate::in_process::{InProcessEventDelivery, SendOutcome};
use crate::request_id::RequestId;
use crate::rpc_error::{RpcErrorCode, RpcErrorView};
use crate::runtime::{
    after_input, distinct_ids, lemma_requests_balance, run, shutting_down_view, slots, submitted,
    ErrorReply, InProcessRuntime, OutgoingMessage, PendingInput, RuntimeView,
};
use crate::runtime_loop::{
    after_loop_events, answered_slot, answered_slots,
    lemma_received_requests_are_answered_once, lemma_replies_reach_their_request, loop_action,
    offered_event, pending_input, requested_slots,
    ClientMessage, LoopAction, LoopActionView, LoopEvent,
};

verus! {

/// What the caller does next.
#[derive(Clone, Copy, Debug, Eq, PartialEq, Structural)]
pub enum ShutdownStage {
    /// Close the queues to the runtime and to the message processor, and fail every server request
    /// that waits for the client.
    CancelServerRequests,
    /// Route messages until the message processor's task finishes.
    DrainProcessor,
    /// Abort the message processor's task.
    AbortProcessor,
    /// Let go of the message processor, and route messages until the outbound router's task finishes.
    DrainRouter,
    /// Let go of the message processor, and abort the outbound router's task.
    AbortRouter,
    /// Route the messages that are left in the queue.
    RouteLeftovers,
    /// Answer the requests that are still in flight.
    AnswerPending,
    /// Acknowledge the shutdown.
    Acknowledge,
    Ended,
}

/// What the caller reports.
#[derive(Debug, Eq, PartialEq)]
pub enum ShutdownEvent {
    /// What the stage asks for is done, or is to be done now where it is an answer.
    Proceed,
    /// A message from the message processor.
    Message(OutgoingMessage),
    /// An event was offered to the client's queue.
    EventOffered { event: InProcessServerEvent, outcome: SendOutcome },
    /// The task finished, and the messages that it left behind were routed.
    TaskFinished,
    /// The time for a graceful end ran out.
    TimedOut,
}

/// What an event leads to.
#[derive(Debug, Eq, PartialEq)]
pub enum ShutdownAction {
    /// An action as in the main loop.
    Route(LoopAction),
    /// Answer these requests.
    AnswerPending(Vec<ErrorReply>),
    /// Acknowledge the shutdown to whoever requested it.
    Acknowledge,
}

/// The value of a [`ShutdownAction`].
pub enum ShutdownActionView {
    Route(LoopActionView),
    AnswerPending(Seq<(u64, RpcErrorView)>),
    Acknowledge,
}

/// The values of replies.
pub open spec fn reply_values(replies: Seq<ErrorReply>) -> Seq<(u64, RpcErrorView)> {
    replies.map_values(|reply: ErrorReply| (reply.slot, reply.error@))
}

impl View for ShutdownAction {
    type V = ShutdownActionView;

    open spec fn view(&self) -> ShutdownActionView {
        match *self {
            ShutdownAction::Route(action) => ShutdownActionView::Route(action@),
            ShutdownAction::AnswerPending(replies) => ShutdownActionView::AnswerPending(
                reply_values(replies@),
            ),
            ShutdownAction::Acknowledge => ShutdownActionView::Acknowledge,
        }
    }
}

/// A runtime that shuts down.
pub struct RuntimeShutdown {
    runtime: InProcessRuntime,
    stage: ShutdownStage,
    event_consumer_open: bool,
}

/// The value of a [`RuntimeShutdown`].
pub struct ShutdownView {
    pub runtime: RuntimeView,
    pub stage: ShutdownStage,
    /// Whether the client still consumes events.
    pub event_consumer_open: bool,
}

impl View for RuntimeShutdown {
    type V = ShutdownView;

    closed spec fn view(&self) -> ShutdownView {
        ShutdownView {
            runtime: self.runtime@,
            stage: self.stage,
            event_consumer_open: self.event_consumer_open,
        }
    }
}

/// Whether messages are routed in a stage.
pub open spec fn routes(stage: ShutdownStage) -> bool {
    stage == ShutdownStage::DrainProcessor || stage == ShutdownStage::DrainRouter || stage
        == ShutdownStage::RouteLeftovers
}

/// Whether an event tells that the client has gone.
pub open spec fn consumer_gone(event: ShutdownEvent) -> bool {
    event matches ShutdownEvent::EventOffered { outcome, .. } && outcome == SendOutcome::Closed
}

/// The stage after an event. With no client left there is nothing to drain for. An event that the
/// stage does not wait for changes nothing.
pub open spec fn next_stage(shutdown: ShutdownView, event: ShutdownEvent) -> ShutdownStage {
    let open = shutdown.event_consumer_open;
    match shutdown.stage {
        ShutdownStage::CancelServerRequests => match event {
            ShutdownEvent::Proceed => ShutdownStage::DrainProcessor,
            _ => shutdown.stage,
        },
        ShutdownStage::DrainProcessor => match event {
            ShutdownEvent::TaskFinished => ShutdownStage::DrainRouter,
            ShutdownEvent::TimedOut => ShutdownStage::AbortProcessor,
            _ => if consumer_gone(event) {
                ShutdownStage::AbortProcessor
            } else {
                shutdown.stage
            },
        },
        ShutdownStage::AbortProcessor => match event {
            ShutdownEvent::Proceed => if open {
                ShutdownStage::DrainRouter
            } else {
                ShutdownStage::AbortRouter
            },
            _ => shutdown.stage,
        },
        ShutdownStage::DrainRouter => match event {
            ShutdownEvent::TaskFinished => ShutdownStage::RouteLeftovers,
            ShutdownEvent::TimedOut => ShutdownStage::AbortRouter,
            _ => if consumer_gone(event) {
                ShutdownStage::AbortRouter
            } else {
                shutdown.stage
            },
        },
        ShutdownStage::AbortRouter => match event {
            ShutdownEvent::Proceed => if open {
                ShutdownStage::RouteLeftovers
            } else {
                ShutdownStage::AnswerPending
            },
            _ => shutdown.stage,
        },
        ShutdownStage::RouteLeftovers => if event is Proceed || consumer_gone(event) {
            ShutdownStage::AnswerPending
        } else {
            shutdown.stage
        },
        ShutdownStage::AnswerPending => match event {
            ShutdownEvent::Proceed => if shutdown.runtime.acknowledge {
                ShutdownStage::Acknowledge
            } else {
                ShutdownStage::Ended
            },
            _ => shutdown.stage,
        },
        ShutdownStage::Acknowledge => match event {
            ShutdownEvent::Proceed => ShutdownStage::Ended,
            _ => shutdown.stage,
        },
        ShutdownStage::Ended => shutdown.stage,
    }
}

/// What an event does to the requests in flight.
pub open spec fn shutdown_input(stage: ShutdownStage, event: ShutdownEvent) -> Option<PendingInput> {
    match event {
        ShutdownEvent::Message(message) => if routes(stage) {
            pending_input(LoopEvent::Outgoing(message))
        } else {
            None
        },
        ShutdownEvent::Proceed => if stage == ShutdownStage::AnswerPending {
            Some(PendingInput::Finish)
        } else {
            None
        },
        _ => None,
    }
}

/// The shutdown after an event.
pub open spec fn after_shutdown_event(shutdown: ShutdownView, event: ShutdownEvent) -> ShutdownView {
    ShutdownView {
        runtime: RuntimeView {
            pending: match shutdown_input(shutdown.stage, event) {
                Some(input) => after_input(shutdown.runtime.pending, input).0,
                None => shutdown.runtime.pending,
            },
            ..shutdown.runtime
        },
        stage: next_stage(shutdown, event),
        event_consumer_open: shutdown.event_consumer_open && !(routes(shutdown.stage)
            && consumer_gone(event)),
    }
}

/// The action that an event leads to. Server requests can be failed only as long as there is a message
/// processor.
pub open spec fn shutdown_action(shutdown: ShutdownView, event: ShutdownEvent) -> ShutdownActionView {
    let nothing = ShutdownActionView::Route(LoopActionView::Wait);
    match event {
        ShutdownEvent::Message(message) => if routes(shutdown.stage) {
            ShutdownActionView::Route(loop_action(shutdown.runtime, LoopEvent::Outgoing(message)))
        } else {
            nothing
        },
        ShutdownEvent::EventOffered { event, outcome } => if shutdown.stage
            == ShutdownStage::DrainProcessor {
            ShutdownActionView::Route(
                loop_action(shutdown.runtime, LoopEvent::EventOffered { event, outcome }),
            )
        } else {
            nothing
        },
        ShutdownEvent::Proceed => if shutdown.stage == ShutdownStage::AnswerPending {
            ShutdownActionView::AnswerPending(
                slots(shutdown.runtime.pending).map_values(
                    |slot: u64| (slot, shutting_down_view()),
                ),
            )
        } else if shutdown.stage == ShutdownStage::Acknowledge {
            ShutdownActionView::Acknowledge
        } else {
            nothing
        },
        _ => nothing,
    }
}

impl RuntimeShutdown {
    /// The runtime's own state is well-formed.
    pub open spec fn well_formed(&self) -> bool {
        &&& distinct_ids(self@.runtime.pending)
        &&& self@.runtime.acknowledge ==> self@.runtime.shutdown_requested
    }

    /// Starts the shutdown of a runtime whose main loop has ended.
    pub fn new(runtime: InProcessRuntime) -> (shutdown: Self)
        requires
            runtime.well_formed(),
        ensures
            shutdown.well_formed(),
            shutdown@ == shutdown_start(runtime@),
    {
        RuntimeShutdown {
            runtime,
            stage: ShutdownStage::CancelServerRequests,
            event_consumer_open: true,
        }
    }

    /// What the caller does next.
    pub fn stage(&self) -> (stage: ShutdownStage)
        ensures
            stage == self@.stage,
    {
        self.stage
    }

    /// Decides on one event: what it leads to, and the stage after it.
    pub fn advance(&mut self, event: ShutdownEvent) -> (action: ShutdownAction)
        requires
            old(self).well_formed(),
        ensures
            final(self).well_formed(),
            final(self)@ == after_shutdown_event(old(self)@, event),
            action@ == shutdown_action(old(self)@, event),
    {
        let stage = self.stage;
        match event {
            ShutdownEvent::Proceed => self.proceed(),
            ShutdownEvent::Message(message) => {
                match stage {
                    ShutdownStage::DrainProcessor
                    | ShutdownStage::DrainRouter
                    | ShutdownStage::RouteLeftovers => {
                        let (action, _) = self.runtime.advance(LoopEvent::Outgoing(message));
                        ShutdownAction::Route(action)
                    },
                    _ => ShutdownAction::Route(LoopAction::Wait),
                }
            },
            ShutdownEvent::EventOffered { event, outcome } => {
                if outcome == SendOutcome::Closed {
                    self.client_has_gone();
                }
                match stage {
                    ShutdownStage::DrainProcessor => {
                        let (action, _) = self.runtime.advance(
                            LoopEvent::EventOffered { event, outcome },
                        );
                        ShutdownAction::Route(action)
                    },
                    _ => ShutdownAction::Route(LoopAction::Wait),
                }
            },
            ShutdownEvent::TaskFinished => {
                match stage {
                    ShutdownStage::DrainProcessor => {
                        self.stage = ShutdownStage::DrainRouter;
                    },
                    ShutdownStage::DrainRouter => {
                        self.stage = ShutdownStage::RouteLeftovers;
                    },
                    _ => {},
                }
                ShutdownAction::Route(LoopAction::Wait)
            },
            ShutdownEvent::TimedOut => {
                match stage {
                    ShutdownStage::DrainProcessor => {
                        self.stage = ShutdownStage::AbortProcessor;
                    },
                    ShutdownStage::DrainRouter => {
                        self.stage = ShutdownStage::AbortRouter;
                    },
                    _ => {},
                }
                ShutdownAction::Route(LoopAction::Wait)
            },
        }
    }

    fn client_has_gone(&mut self)
        ensures
            final(self)@ == (ShutdownView {
                stage: match old(self)@.stage {
                    ShutdownStage::DrainProcessor => ShutdownStage::AbortProcessor,
                    ShutdownStage::DrainRouter => ShutdownStage::AbortRouter,
                    ShutdownStage::RouteLeftovers => ShutdownStage::AnswerPending,
                    stage => stage,
                },
                event_consumer_open: old(self)@.event_consumer_open && !routes(old(self)@.stage),
                ..old(self)@
            }),
            final(self).runtime == old(self).runtime,
    {
        match self.stage {
            ShutdownStage::DrainProcessor => {
                self.event_consumer_open = false;
                self.stage = ShutdownStage::AbortProcessor;
            },
            ShutdownStage::DrainRouter => {
                self.event_consumer_open = false;
                self.stage = ShutdownStage::AbortRouter;
            },
            ShutdownStage::RouteLeftovers => {
                self.event_consumer_open = false;
                self.stage = ShutdownStage::AnswerPending;
            },
            _ => {},
        }
    }

    fn proceed(&mut self) -> (action: ShutdownAction)
        requires
            old(self).well_formed(),
        ensures
            final(self).well_formed(),
            final(self)@ == after_shutdown_event(old(self)@, ShutdownEvent::Proceed),
            action@ == shutdown_action(old(self)@, ShutdownEvent::Proceed),
    {
        match self.stage {
            ShutdownStage::CancelServerRequests => {
                self.stage = ShutdownStage::DrainProcessor;
                ShutdownAction::Route(LoopAction::Wait)
            },
            ShutdownStage::AbortProcessor => {
                self.stage = if self.event_consumer_open {
                    ShutdownStage::DrainRouter
                } else {
                    ShutdownStage::AbortRouter
                };
                ShutdownAction::Route(LoopAction::Wait)
            },
            ShutdownStage::AbortRouter => {
                self.stage = if self.event_consumer_open {
                    ShutdownStage::RouteLeftovers
                } else {
                    ShutdownStage::AnswerPending
                };
                ShutdownAction::Route(LoopAction::Wait)
            },
            ShutdownStage::RouteLeftovers => {
                self.stage = ShutdownStage::AnswerPending;
                ShutdownAction::Route(LoopAction::Wait)
            },
            ShutdownStage::AnswerPending => {
                let replies = self.runtime.finish();
                self.stage = if self.runtime.acknowledges_shutdown() {
                    ShutdownStage::Acknowledge
                } else {
                    ShutdownStage::Ended
                };
                proof {
                    let answered = replies@.map_values(|reply: ErrorReply| reply.slot);
                    let expected = slots(old(self)@.runtime.pending).map_values(
                        |slot: u64| (slot, shutting_down_view()),
                    );
                    assert(answered == slots(old(self)@.runtime.pending));
                    assert forall|i: int| 0 <= i < replies@.len() implies (
                    #[trigger] reply_values(replies@)[i]) == expected[i] by {
                        assert(answered[i] == replies@[i].slot);
                    }
                    assert(reply_values(replies@) =~= expected);
                }
                ShutdownAction::AnswerPending(replies)
            },
            ShutdownStage::Acknowledge => {
                self.stage = ShutdownStage::Ended;
                ShutdownAction::Acknowledge
            },
            ShutdownStage::DrainProcessor | ShutdownStage::DrainRouter | ShutdownStage::Ended =>
                ShutdownAction::Route(LoopAction::Wait),
        }
    }
}

/// The shutdown of a runtime whose main loop has just ended.
pub open spec fn shutdown_start(runtime: RuntimeView) -> ShutdownView {
    ShutdownView {
        runtime,
        stage: ShutdownStage::CancelServerRequests,
        event_consumer_open: true,
    }
}

/// The shutdown after a series of events.
pub open spec fn after_shutdown_events(
    shutdown: ShutdownView,
    events: Seq<ShutdownEvent>,
) -> ShutdownView
    decreases events.len(),
{
    if events.len() == 0 {
        shutdown
    } else {
        after_shutdown_events(after_shutdown_event(shutdown, events[0]), events.drop_first())
    }
}

/// What a client sees of the runtime.
pub enum Effect {
    /// The request that waits in this slot gets its reply.
    Answered(u64),
    /// Whoever requested the shutdown learns that it is over.
    Acknowledged,
}

/// The replies to the given slots.
pub open spec fn answers(slots: Seq<u64>) -> Seq<Effect> {
    slots.map_values(|slot: u64| Effect::Answered(slot))
}

/// What a client sees of an action.
pub open spec fn effects_of(action: ShutdownActionView) -> Seq<Effect> {
    match action {
        ShutdownActionView::Route(action) => answers(answered_slot(action)),
        ShutdownActionView::AnswerPending(replies) => answers(
            replies.map_values(|reply: (u64, RpcErrorView)| reply.0),
        ),
        ShutdownActionView::Acknowledge => seq![Effect::Acknowledged],
    }
}

/// What a client sees of a shutdown, in order.
pub open spec fn shutdown_effects(shutdown: ShutdownView, events: Seq<ShutdownEvent>) -> Seq<Effect>
    decreases events.len(),
{
    if events.len() == 0 {
        Seq::empty()
    } else {
        effects_of(shutdown_action(shutdown, events[0])) + shutdown_effects(
            after_shutdown_event(shutdown, events[0]),
            events.drop_first(),
        )
    }
}

/// The slots that get a reply, in order.
pub open spec fn replied_slots(effects: Seq<Effect>) -> Seq<u64>
    decreases effects.len(),
{
    if effects.len() == 0 {
        Seq::empty()
    } else {
        let rest = replied_slots(effects.drop_first());
        match effects[0] {
            Effect::Answered(slot) => seq![slot] + rest,
            Effect::Acknowledged => rest,
        }
    }
}

/// How often the shutdown is acknowledged.
pub open spec fn acknowledgements(effects: Seq<Effect>) -> nat
    decreases effects.len(),
{
    if effects.len() == 0 {
        0
    } else {
        acknowledgements(effects.drop_first()) + if effects[0] is Acknowledged {
            1nat
        } else {
            0nat
        }
    }
}

proof fn lemma_effects_add(first: Seq<Effect>, second: Seq<Effect>)
    ensures
        replied_slots(first + second) == replied_slots(first) + replied_slots(second),
        acknowledgements(first + second) == acknowledgements(first) + acknowledgements(second),
    decreases first.len(),
{
    let both = first + second;
    if first.len() == 0 {
        assert(both =~= second);
    } else {
        assert(both.drop_first() =~= first.drop_first() + second);
        lemma_effects_add(first.drop_first(), second);
        assert(replied_slots(both) =~= replied_slots(first) + replied_slots(second));
    }
}

proof fn lemma_answers_reply(slots: Seq<u64>)
    ensures
        replied_slots(answers(slots)) == slots,
        acknowledgements(answers(slots)) == 0,
    decreases slots.len(),
{
    if slots.len() > 0 {
        assert(answers(slots).drop_first() =~= answers(slots.drop_first()));
        lemma_answers_reply(slots.drop_first());
        assert(replied_slots(answers(slots)) =~= slots);
    }
}

/// What a series of events does to the requests in flight.
pub open spec fn shutdown_inputs(shutdown: ShutdownView, events: Seq<ShutdownEvent>) -> Seq<
    PendingInput,
>
    decreases events.len(),
{
    if events.len() == 0 {
        Seq::empty()
    } else {
        let rest = shutdown_inputs(
            after_shutdown_event(shutdown, events[0]),
            events.drop_first(),
        );
        match shutdown_input(shutdown.stage, events[0]) {
            Some(input) => seq![input] + rest,
            None => rest,
        }
    }
}

proof fn lemma_step_replies(shutdown: ShutdownView, event: ShutdownEvent)
    ensures
        replied_slots(effects_of(shutdown_action(shutdown, event))) == match shutdown_input(
            shutdown.stage,
            event,
        ) {
            Some(input) => after_input(shutdown.runtime.pending, input).1,
            None => Seq::empty(),
        },
{
    let pending = shutdown.runtime.pending;
    match shutdown_action(shutdown, event) {
        ShutdownActionView::Route(action) => {
            lemma_answers_reply(answered_slot(action));
            match shutdown_input(shutdown.stage, event) {
                Some(input) => {
                    assert(answered_slot(action) =~= after_input(pending, input).1);
                },
                None => {
                    assert(answered_slot(action) =~= Seq::<u64>::empty());
                },
            }
        },
        ShutdownActionView::AnswerPending(replies) => {
            let answered = replies.map_values(|reply: (u64, RpcErrorView)| reply.0);
            assert(answered =~= slots(pending));
            lemma_answers_reply(answered);
        },
        ShutdownActionView::Acknowledge => {
            assert(effects_of(ShutdownActionView::Acknowledge).drop_first() =~= Seq::<
                Effect,
            >::empty());
            reveal_with_fuel(replied_slots, 2);
        },
    }
}

proof fn lemma_shutdown_is_a_run(shutdown: ShutdownView, events: Seq<ShutdownEvent>)
    ensures
        (
            after_shutdown_events(shutdown, events).runtime.pending,
            replied_slots(shutdown_effects(shutdown, events)),
        ) == run(shutdown.runtime.pending, shutdown_inputs(shutdown, events)),
        submitted(shutdown_inputs(shutdown, events)) == Seq::<u64>::empty(),
    decreases events.len(),
{
    let inputs = shutdown_inputs(shutdown, events);
    if events.len() > 0 {
        let event = events[0];
        let rest = events.drop_first();
        let next = after_shutdown_event(shutdown, event);
        let here = effects_of(shutdown_action(shutdown, event));
        lemma_shutdown_is_a_run(next, rest);
        lemma_step_replies(shutdown, event);
        lemma_effects_add(here, shutdown_effects(next, rest));
        match shutdown_input(shutdown.stage, event) {
            Some(input) => {
                assert(inputs.drop_first() =~= shutdown_inputs(next, rest));
                assert(inputs[0] == input);
                assert(submitted(inputs) =~= Seq::<u64>::empty());
            },
            None => {
                assert(replied_slots(shutdown_effects(shutdown, events)) =~= replied_slots(
                    shutdown_effects(next, rest),
                ));
            },
        }
    }
}

/// Whether nothing is left to answer where the acknowledgement is due, and whether it is due only to
/// somebody.
pub open spec fn settled(shutdown: ShutdownView) -> bool {
    &&& shutdown.stage == ShutdownStage::Acknowledge || shutdown.stage == ShutdownStage::Ended
        ==> shutdown.runtime.pending.len() == 0
    &&& shutdown.stage == ShutdownStage::Acknowledge ==> shutdown.runtime.acknowledge
}

proof fn lemma_acknowledgement_is_last(shutdown: ShutdownView, events: Seq<ShutdownEvent>)
    requires
        settled(shutdown),
    ensures
        settled(after_shutdown_events(shutdown, events)),
        acknowledgements(shutdown_effects(shutdown, events)) == if shutdown.runtime.acknowledge
            && shutdown.stage != ShutdownStage::Ended && after_shutdown_events(
            shutdown,
            events,
        ).stage == ShutdownStage::Ended {
            1nat
        } else {
            0nat
        },
        forall|i: int|
            0 <= i < shutdown_effects(shutdown, events).len() && (#[trigger] shutdown_effects(
                shutdown,
                events,
            )[i]) is Acknowledged ==> i == shutdown_effects(shutdown, events).len() - 1,
        shutdown.stage == ShutdownStage::Ended ==> shutdown_effects(shutdown, events).len() == 0
            && after_shutdown_events(shutdown, events).stage == ShutdownStage::Ended,
    decreases events.len(),
{
    if events.len() > 0 {
        let event = events[0];
        let rest = events.drop_first();
        let next = after_shutdown_event(shutdown, event);
        let action = shutdown_action(shutdown, event);
        let here = effects_of(action);
        let after = shutdown_effects(next, rest);
        let all = shutdown_effects(shutdown, events);
        lemma_acknowledgement_is_last(next, rest);
        lemma_effects_add(here, after);
        match action {
            ShutdownActionView::Route(action) => {
                lemma_answers_reply(answered_slot(action));
            },
            ShutdownActionView::AnswerPending(replies) => {
                lemma_answers_reply(replies.map_values(|reply: (u64, RpcErrorView)| reply.0));
            },
            ShutdownActionView::Acknowledge => {
                assert(here.drop_first() =~= Seq::<Effect>::empty());
                reveal_with_fuel(acknowledgements, 2);
            },
        }
        assert forall|i: int| 0 <= i < all.len() && (#[trigger] all[i]) is Acknowledged implies i
            == all.len() - 1 by {
            if i < here.len() {
                assert(all[i] == here[i]);
            } else {
                assert(all[i] == after[i - here.len()]);
            }
        }
    }
}

/// The messages of the client that the main loop receives, in order.
pub open spec fn received_messages(events: Seq<LoopEvent>) -> Seq<ClientMessage>
    decreases events.len(),
{
    if events.len() == 0 {
        Seq::empty()
    } else {
        let rest = received_messages(events.drop_first());
        match events[0] {
            LoopEvent::ClientMessage(message) => seq![message] + rest,
            _ => rest,
        }
    }
}

/// Whether the main loop reads a client queue that accepted the given messages: it receives them in
/// order, and the queue ends once all of them were received.
pub open spec fn reads_queue(accepted: Seq<ClientMessage>, events: Seq<LoopEvent>) -> bool {
    &&& received_messages(events).len() <= accepted.len()
    &&& received_messages(events) == accepted.take(received_messages(events).len() as int)
    &&& events.contains(LoopEvent::ClientQueueEnded) ==> received_messages(events) == accepted
}

/// The reply slots of the requests among messages, in order.
pub open spec fn request_slots(messages: Seq<ClientMessage>) -> Seq<u64>
    decreases messages.len(),
{
    if messages.len() == 0 {
        Seq::empty()
    } else {
        let rest = request_slots(messages.drop_first());
        match messages[0] {
            ClientMessage::Request { slot, .. } => seq![slot] + rest,
            _ => rest,
        }
    }
}

proof fn lemma_requested_slots_are_received(events: Seq<LoopEvent>)
    ensures
        requested_slots(events) == request_slots(received_messages(events)),
    decreases events.len(),
{
    if events.len() > 0 {
        let rest = events.drop_first();
        lemma_requested_slots_are_received(rest);
        match events[0] {
            LoopEvent::ClientMessage(message) => {
                assert(received_messages(events).drop_first() =~= received_messages(rest));
            },
            _ => {},
        }
    }
}

/// A runtime before its first event.
pub open spec fn runtime_start(delivery: InProcessEventDelivery) -> RuntimeView {
    RuntimeView {
        pending: Seq::empty(),
        shutdown_requested: false,
        acknowledge: false,
        delivery,
    }
}

/// What a client sees of a runtime, from its first event to the end of its shutdown, in order.
pub open spec fn runtime_effects(
    delivery: InProcessEventDelivery,
    events: Seq<LoopEvent>,
    shutdown_events: Seq<ShutdownEvent>,
) -> Seq<Effect> {
    answers(answered_slots(runtime_start(delivery), events)) + shutdown_effects(
        shutdown_start(after_loop_events(runtime_start(delivery), events)),
        shutdown_events,
    )
}

/// Once a runtime has ended, every request that its main loop received was answered exactly once,
/// every answer came before the acknowledgement, and the shutdown was acknowledged exactly once if
/// somebody waited for that and not at all otherwise.
pub proof fn lemma_answers_precede_the_acknowledgement(
    delivery: InProcessEventDelivery,
    events: Seq<LoopEvent>,
    shutdown_events: Seq<ShutdownEvent>,
)
    requires
        after_shutdown_events(
            shutdown_start(after_loop_events(runtime_start(delivery), events)),
            shutdown_events,
        ).stage == ShutdownStage::Ended,
    ensures
        ({
            let effects = runtime_effects(delivery, events, shutdown_events);
            &&& replied_slots(effects).to_multiset() == requested_slots(events).to_multiset()
            &&& acknowledgements(effects) == if after_loop_events(
                runtime_start(delivery),
                events,
            ).acknowledge {
                1nat
            } else {
                0nat
            }
            &&& forall|i: int, j: int|
                0 <= i < j < effects.len() && (#[trigger] effects[j]) is Answered ==> (
                #[trigger] effects[i]) is Answered
        }),
{
    let start = runtime_start(delivery);
    let looped = answered_slots(start, events);
    let begin = shutdown_start(after_loop_events(start, events));
    let end = after_shutdown_events(begin, shutdown_events);
    let tail = shutdown_effects(begin, shutdown_events);
    let inputs = shutdown_inputs(begin, shutdown_events);
    let effects = runtime_effects(delivery, events, shutdown_events);
    lemma_received_requests_are_answered_once(delivery, events);
    lemma_shutdown_is_a_run(begin, shutdown_events);
    lemma_acknowledgement_is_last(begin, shutdown_events);
    lemma_requests_balance(begin.runtime.pending, inputs);
    lemma_answers_reply(looped);
    lemma_effects_add(answers(looped), tail);
    vstd::seq_lib::lemma_multiset_commutative(looped, replied_slots(tail));
    broadcast use vstd::seq_lib::group_to_multiset_ensures;

    assert(slots(end.runtime.pending) =~= Seq::<u64>::empty());
    let left = replied_slots(effects).to_multiset();
    let right = requested_slots(events).to_multiset();
    assert forall|v: u64| left.count(v) == right.count(v) by {
        let balance = slots(end.runtime.pending).to_multiset().add(
            replied_slots(tail).to_multiset(),
        );
        assert(balance.count(v) == slots(begin.runtime.pending).to_multiset().add(
            submitted(inputs).to_multiset(),
        ).count(v));
        let answered = looped.to_multiset().add(slots(begin.runtime.pending).to_multiset());
        assert(answered.count(v) == right.count(v));
    }
    assert(left =~= right);
    assert forall|i: int, j: int|
        0 <= i < j < effects.len() && (#[trigger] effects[j]) is Answered implies (
    #[trigger] effects[i]) is Answered by {
        if i >= looped.len() {
            assert(effects[i] == tail[i - looped.len()]);
        }
    }
}

/// No accepted request is dropped by a shutdown: where the main loop goes on until the client queue
/// has ended, every request that the queue accepted is answered exactly once, and all of them before
/// the shutdown is acknowledged. That holds as well of requests that were still queued when the
/// shutdown was requested.
pub proof fn lemma_accepted_requests_are_answered_before_the_acknowledgement(
    delivery: InProcessEventDelivery,
    accepted: Seq<ClientMessage>,
    events: Seq<LoopEvent>,
    shutdown_events: Seq<ShutdownEvent>,
)
    requires
        reads_queue(accepted, events),
        events.len() > 0,
        events.last() == LoopEvent::ClientQueueEnded,
        after_shutdown_events(
            shutdown_start(after_loop_events(runtime_start(delivery), events)),
            shutdown_events,
        ).stage == ShutdownStage::Ended,
    ensures
        ({
            let effects = runtime_effects(delivery, events, shutdown_events);
            &&& replied_slots(effects).to_multiset() == request_slots(accepted).to_multiset()
            &&& forall|i: int, j: int|
                0 <= i < j < effects.len() && (#[trigger] effects[j]) is Answered ==> (
                #[trigger] effects[i]) is Answered
        }),
{
    assert(events.contains(LoopEvent::ClientQueueEnded)) by {
        assert(events[events.len() - 1] == LoopEvent::ClientQueueEnded);
    }
    lemma_requested_slots_are_received(events);
    lemma_answers_precede_the_acknowledgement(delivery, events, shutdown_events);
}

/// How far a stage is.
pub open spec fn stage_rank(stage: ShutdownStage) -> nat {
    match stage {
        ShutdownStage::CancelServerRequests => 0,
        ShutdownStage::DrainProcessor => 1,
        ShutdownStage::AbortProcessor => 2,
        ShutdownStage::DrainRouter => 3,
        ShutdownStage::AbortRouter => 4,
        ShutdownStage::RouteLeftovers => 5,
        ShutdownStage::AnswerPending => 6,
        ShutdownStage::Acknowledge => 7,
        ShutdownStage::Ended => 8,
    }
}

/// A shutdown comes to its end: it never goes back, and what each stage waits for takes it on. A task
/// that does not finish is waited for only until the time runs out.
pub proof fn lemma_shutdown_moves_on(shutdown: ShutdownView, event: ShutdownEvent)
    ensures
        stage_rank(next_stage(shutdown, event)) >= stage_rank(shutdown.stage),
        shutdown.stage == ShutdownStage::DrainProcessor || shutdown.stage
            == ShutdownStage::DrainRouter ==> stage_rank(
            next_stage(shutdown, ShutdownEvent::TimedOut),
        ) > stage_rank(shutdown.stage) && stage_rank(
            next_stage(shutdown, ShutdownEvent::TaskFinished),
        ) > stage_rank(shutdown.stage),
        shutdown.stage != ShutdownStage::DrainProcessor && shutdown.stage
            != ShutdownStage::DrainRouter && shutdown.stage != ShutdownStage::Ended ==> stage_rank(
            next_stage(shutdown, ShutdownEvent::Proceed),
        ) > stage_rank(shutdown.stage),
{
}

/// The shutdown loses nothing that is still sent: in every stage that routes messages, a notification or
/// a server request is offered to the client as exactly that event and changes nothing else. It waits for
/// capacity under lossless delivery, and under any delivery where it ends a turn or an import.
pub proof fn lemma_shutdown_offers_what_is_sent(shutdown: ShutdownView, message: OutgoingMessage)
    requires
        shutdown.stage == ShutdownStage::DrainProcessor || shutdown.stage
            == ShutdownStage::DrainRouter || shutdown.stage == ShutdownStage::RouteLeftovers,
    ensures
        message matches OutgoingMessage::Notification(notification) ==> shutdown_action(
            shutdown,
            ShutdownEvent::Message(message),
        ) == ShutdownActionView::Route(
            LoopActionView::OfferEvent {
                event: InProcessServerEvent::ServerNotification(notification),
                wait: shutdown.runtime.delivery == InProcessEventDelivery::Lossless
                    || notification is TurnCompleted
                    || notification is ExternalAgentConfigImportCompleted,
            },
        ),
        message matches OutgoingMessage::Request { id } ==> shutdown_action(
            shutdown,
            ShutdownEvent::Message(message),
        ) == ShutdownActionView::Route(
            LoopActionView::OfferEvent {
                event: InProcessServerEvent::ServerRequest { id },
                wait: shutdown.runtime.delivery == InProcessEventDelivery::Lossless,
            },
        ),
        message is Notification || message is Request ==> after_shutdown_event(
            shutdown,
            ShutdownEvent::Message(message),
        ) == shutdown,
{
}

/// A reply that comes during the shutdown still goes to the request that it belongs to, which alone
/// leaves; a reply to nobody is ignored.
pub proof fn lemma_shutdown_replies_reach_their_request(
    shutdown: ShutdownView,
    message: OutgoingMessage,
    id: RequestId,
    k: int,
)
    requires
        shutdown.stage == ShutdownStage::DrainProcessor || shutdown.stage
            == ShutdownStage::DrainRouter || shutdown.stage == ShutdownStage::RouteLeftovers,
        distinct_ids(shutdown.runtime.pending),
        message == (OutgoingMessage::Response { id }) || message == (OutgoingMessage::Error { id }),
    ensures
        0 <= k < shutdown.runtime.pending.len() && shutdown.runtime.pending[k].id == id@ ==> {
            &&& shutdown_action(shutdown, ShutdownEvent::Message(message))
                == ShutdownActionView::Route(
                LoopActionView::Reply { slot: shutdown.runtime.pending[k].slot },
            )
            &&& after_shutdown_event(shutdown, ShutdownEvent::Message(message)).runtime.pending
                == shutdown.runtime.pending.take(k) + shutdown.runtime.pending.skip(k + 1)
            &&& after_shutdown_event(shutdown, ShutdownEvent::Message(message)).stage
                == shutdown.stage
        },
        (forall|i: int|
            0 <= i < shutdown.runtime.pending.len() ==> (#[trigger] shutdown.runtime.pending[i]).id
                != id@) ==> {
            &&& shutdown_action(shutdown, ShutdownEvent::Message(message))
                == ShutdownActionView::Route(LoopActionView::Wait)
            &&& after_shutdown_event(shutdown, ShutdownEvent::Message(message)) == shutdown
        },
{
    lemma_replies_reach_their_request(shutdown.runtime, message, id, k);
}

/// Tasks are aborted only for a cause: the message processor where it did not finish in time or the client
/// went while it was drained, the outbound router for the same causes or where the client had gone before.
/// A task that finishes is not aborted, and as long as there is a client the router is drained and the
/// leftovers are routed.
pub proof fn lemma_tasks_are_aborted_only_for_a_cause(shutdown: ShutdownView, event: ShutdownEvent)
    ensures
        ({
            let next = next_stage(shutdown, event);
            let gone = event matches ShutdownEvent::EventOffered { outcome, .. } && outcome
                == SendOutcome::Closed;
            let proceeds = event == ShutdownEvent::Proceed;
            &&& shutdown.stage == ShutdownStage::CancelServerRequests ==> next == if proceeds {
                ShutdownStage::DrainProcessor
            } else {
                shutdown.stage
            }
            &&& shutdown.stage == ShutdownStage::DrainProcessor ==> {
                &&& next == ShutdownStage::AbortProcessor <==> gone || event
                    == ShutdownEvent::TimedOut
                &&& next == ShutdownStage::DrainRouter <==> event == ShutdownEvent::TaskFinished
                &&& next == shutdown.stage || next == ShutdownStage::AbortProcessor || next
                    == ShutdownStage::DrainRouter
            }
            &&& shutdown.stage == ShutdownStage::AbortProcessor ==> {
                &&& next == ShutdownStage::DrainRouter <==> proceeds && shutdown.event_consumer_open
                &&& next == ShutdownStage::AbortRouter <==> proceeds && !shutdown.event_consumer_open
                &&& next == shutdown.stage <==> !proceeds
            }
            &&& shutdown.stage == ShutdownStage::DrainRouter ==> {
                &&& next == ShutdownStage::AbortRouter <==> gone || event == ShutdownEvent::TimedOut
                &&& next == ShutdownStage::RouteLeftovers <==> event == ShutdownEvent::TaskFinished
                &&& next == shutdown.stage || next == ShutdownStage::AbortRouter || next
                    == ShutdownStage::RouteLeftovers
            }
            &&& shutdown.stage == ShutdownStage::AbortRouter ==> {
                &&& next == ShutdownStage::RouteLeftovers <==> proceeds
                    && shutdown.event_consumer_open
                &&& next == ShutdownStage::AnswerPending <==> proceeds
                    && !shutdown.event_consumer_open
                &&& next == shutdown.stage <==> !proceeds
            }
            &&& shutdown.stage == ShutdownStage::RouteLeftovers ==> {
                &&& next == ShutdownStage::AnswerPending <==> proceeds || gone
                &&& next == shutdown.stage || next == ShutdownStage::AnswerPending
            }
            &&& after_shutdown_event(shutdown, event).stage == next
        }),
{
}

/// The client counts as gone from the first event on that it no longer takes while messages are routed,
/// and not before.
pub proof fn lemma_when_the_client_counts_as_gone(shutdown: ShutdownView, event: ShutdownEvent)
    ensures
        after_shutdown_event(shutdown, event).event_consumer_open <==> shutdown.event_consumer_open
            && !({
            &&& shutdown.stage == ShutdownStage::DrainProcessor || shutdown.stage
                == ShutdownStage::DrainRouter || shutdown.stage == ShutdownStage::RouteLeftovers
            &&& event matches ShutdownEvent::EventOffered { outcome, .. } && outcome
                == SendOutcome::Closed
        }),
{
}

/// The requests that are left are answered all together, each in its own slot and in order, with the
/// internal error that says why; then nothing is in flight, and the end is acknowledged next exactly if
/// somebody waits for it. Before that stage nothing is answered by giving up.
pub proof fn lemma_leftover_requests_are_answered(shutdown: ShutdownView)
    ensures
        ({
            let action = shutdown_action(shutdown, ShutdownEvent::Proceed);
            let after = after_shutdown_event(shutdown, ShutdownEvent::Proceed);
            &&& action is AnswerPending <==> shutdown.stage == ShutdownStage::AnswerPending
            &&& action is Acknowledge <==> shutdown.stage == ShutdownStage::Acknowledge
            &&& shutdown.stage != ShutdownStage::AnswerPending ==> after.runtime.pending
                == shutdown.runtime.pending
            &&& action matches ShutdownActionView::AnswerPending(replies) ==> {
                &&& replies.len() == shutdown.runtime.pending.len()
                &&& forall|i: int|
                    0 <= i < replies.len() ==> (#[trigger] replies[i]).0
                        == shutdown.runtime.pending[i].slot && replies[i].1.code
                        == RpcErrorCode::Internal && replies[i].1.message
                        == "in-process app-server runtime is shutting down"@
                &&& after.runtime.pending.len() == 0
                &&& after.stage == if shutdown.runtime.acknowledge {
                    ShutdownStage::Acknowledge
                } else {
                    ShutdownStage::Ended
                }
            }
            &&& shutdown.stage == ShutdownStage::Acknowledge ==> after.stage == ShutdownStage::Ended
            &&& after.runtime.acknowledge == shutdown.runtime.acknowledge
            &&& after.runtime.delivery == shutdown.runtime.delivery
        }),
{
}

/// As long as the message processor is there, a server request that does not reach the client is failed
/// under its own identifier.
pub proof fn lemma_shutdown_fails_unreached_server_requests(
    shutdown: ShutdownView,
    id: RequestId,
    outcome: SendOutcome,
)
    requires
        shutdown.stage == ShutdownStage::DrainProcessor,
        outcome != SendOutcome::Sent,
    ensures
        shutdown_action(
            shutdown,
            ShutdownEvent::EventOffered {
                event: InProcessServerEvent::ServerRequest { id },
                outcome,
            },
        ) matches ShutdownActionView::Route(LoopActionView::FailServerRequest { id: failed, error })
            && failed == id@ && (outcome == SendOutcome::Full ==> error.code
            == RpcErrorCode::Overloaded) && (outcome == SendOutcome::Closed ==> error.code
            == RpcErrorCode::Internal),
{
}

/// The events that are sent to the client while messages are routed, in order.
pub open spec fn late_events(shutdown: ShutdownView, events: Seq<ShutdownEvent>) -> Seq<
    InProcessServerEvent,
>
    decreases events.len(),
{
    if events.len() == 0 {
        Seq::empty()
    } else {
        let rest = late_events(after_shutdown_event(shutdown, events[0]), events.drop_first());
        let routed = shutdown.stage == ShutdownStage::DrainProcessor || shutdown.stage
            == ShutdownStage::DrainRouter || shutdown.stage == ShutdownStage::RouteLeftovers;
        match events[0] {
            ShutdownEvent::Message(OutgoingMessage::Notification(notification)) if routed => seq![
                InProcessServerEvent::ServerNotification(notification),
            ] + rest,
            ShutdownEvent::Message(OutgoingMessage::Request { id }) if routed => seq![
                InProcessServerEvent::ServerRequest { id },
            ] + rest,
            _ => rest,
        }
    }
}

/// The events that the shutdown offers to the client, in order, each with whether it waits for capacity.
pub open spec fn late_offers(shutdown: ShutdownView, events: Seq<ShutdownEvent>) -> Seq<
    (InProcessServerEvent, bool),
>
    decreases events.len(),
{
    if events.len() == 0 {
        Seq::empty()
    } else {
        let here = match shutdown_action(shutdown, events[0]) {
            ShutdownActionView::Route(action) => offered_event(action),
            _ => Seq::empty(),
        };
        here + late_offers(after_shutdown_event(shutdown, events[0]), events.drop_first())
    }
}

/// Lossless delivery over a whole shutdown: exactly the events that are sent while messages are routed are
/// offered to the client, in order, and every one of them waits for capacity. With what the main loop
/// offered before, a client that keeps reading gets everything that was sent, in order.
pub proof fn lemma_lossless_shutdown_offers_everything_in_order(
    shutdown: ShutdownView,
    events: Seq<ShutdownEvent>,
)
    requires
        shutdown.runtime.delivery == InProcessEventDelivery::Lossless,
    ensures
        late_offers(shutdown, events) == late_events(shutdown, events).map_values(
            |event: InProcessServerEvent| (event, true),
        ),
    decreases events.len(),
{
    let sent = late_events(shutdown, events).map_values(
        |event: InProcessServerEvent| (event, true),
    );
    if events.len() > 0 {
        lemma_lossless_shutdown_offers_everything_in_order(
            after_shutdown_event(shutdown, events[0]),
            events.drop_first(),
        );
    }
    assert(late_offers(shutdown, events) =~= sent);
}

/// A shutdown starts with the client there and with the requests that are in flight, none of them answered
/// yet.
pub proof fn lemma_how_a_shutdown_starts(runtime: RuntimeView)
    ensures
        shutdown_start(runtime).stage == ShutdownStage::CancelServerRequests,
        shutdown_start(runtime).event_consumer_open,
        shutdown_start(runtime).runtime == runtime,
{
}

/// Outside the stages that route messages, nothing is offered, answered or forgotten on account of a
/// message. What became of an offer calls for an action only while the message processor is drained, and
/// only for a server request that was not queued; the end of a task and a timeout call for none.
pub proof fn lemma_nothing_else_is_done(shutdown: ShutdownView, event: ShutdownEvent)
    requires
        match event {
            ShutdownEvent::Proceed => false,
            ShutdownEvent::Message(_) => shutdown.stage != ShutdownStage::DrainProcessor
                && shutdown.stage != ShutdownStage::DrainRouter && shutdown.stage
                != ShutdownStage::RouteLeftovers,
            ShutdownEvent::EventOffered { event, outcome } => shutdown.stage
                != ShutdownStage::DrainProcessor || !(event is ServerRequest) || outcome
                == SendOutcome::Sent,
            _ => true,
        },
    ensures
        shutdown_action(shutdown, event) == ShutdownActionView::Route(LoopActionView::Wait),
        after_shutdown_event(shutdown, event).runtime == shutdown.runtime,
{
}

/// Once the requests that are left are to be answered, nothing but going on changes the stage, and after
/// the end nothing does.
pub proof fn lemma_the_end_is_not_delayed(shutdown: ShutdownView, event: ShutdownEvent)
    requires
        shutdown.stage == ShutdownStage::AnswerPending || shutdown.stage
            == ShutdownStage::Acknowledge || shutdown.stage == ShutdownStage::Ended,
        event != ShutdownEvent::Proceed || shutdown.stage == ShutdownStage::Ended,
    ensures
        after_shutdown_event(shutdown, event).stage == shutdown.stage,
        after_shutdown_event(shutdown, event).runtime == shutdown.runtime,
{
}

} // verus!
