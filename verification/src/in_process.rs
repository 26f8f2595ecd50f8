//! Decisions of the in-process runtime host.
//!
//! The host runs a message processor inside the client's own process and replaces sockets with
//! bounded in-memory queues. Everything it decides about a queued message is here: which request
//! a reply belongs to, what happens when a queue is full or closed, and how shutdown proceeds.
//! Queues, tasks and timers stay with the caller, which reports each outcome back.
use vstd::prelude::*;
use vstd::string::*;

use crate::request_id::RequestId;

verus! {

/// Backpressure behavior for events emitted by an in-process runtime.
#[derive(Clone, Copy, Debug, Eq, PartialEq, Structural)]
pub enum InProcessEventDelivery {
    /// May drop non-terminal notifications when the event queue is full.
    BestEffort,
    /// Waits for queue capacity so every server request and notification is delivered in order.
    Lossless,
}

impl Default for InProcessEventDelivery {
    fn default() -> (delivery: Self)
        ensures
            delivery == InProcessEventDelivery::BestEffort,
    {
        InProcessEventDelivery::BestEffort
    }
}

/// Optional dependencies and behavior overrides for an in-process runtime.
pub struct InProcessStartOptions<S> {
    pub thread_store: Option<S>,
    pub event_delivery: InProcessEventDelivery,
}

impl<S> Default for InProcessStartOptions<S> {
    fn default() -> (options: Self)
        ensures
            options.thread_store is None,
            options.event_delivery == InProcessEventDelivery::BestEffort,
    {
        InProcessStartOptions { thread_store: None, event_delivery: InProcessEventDelivery::BestEffort }
    }
}

impl<S> InProcessStartOptions<S> {
    /// Uses `thread_store` instead of the store derived from the runtime config.
    pub fn with_thread_store(self, thread_store: S) -> (options: Self)
        ensures
            options.thread_store == Some(thread_store),
            options.event_delivery == self.event_delivery,
    {
        InProcessStartOptions {
            thread_store: Some(thread_store),
            event_delivery: self.event_delivery,
        }
    }

    /// Selects how the runtime handles event-stream backpressure.
    pub fn with_event_delivery(self, event_delivery: InProcessEventDelivery) -> (options: Self)
        ensures
            options.thread_store == self.thread_store,
            options.event_delivery == event_delivery,
    {
        InProcessStartOptions { thread_store: self.thread_store, event_delivery }
    }
}

/// The capacity of every runtime queue.
pub open spec fn queue_capacity(requested: usize) -> usize {
    if requested == 0 {
        1
    } else {
        requested
    }
}

/// The capacity of every runtime queue: the requested one, but at least one.
pub fn channel_capacity(requested: usize) -> (capacity: usize)
    ensures
        capacity == if requested == 0 {
            1
        } else {
            requested
        },
        capacity == queue_capacity(requested),
{
    if requested == 0 {
        1
    } else {
        requested
    }
}

/// What kind of transport failure a client call met.
#[derive(Clone, Copy, Debug, Eq, PartialEq, Structural)]
pub enum TransportErrorKind {
    WouldBlock,
    BrokenPipe,
    InvalidData,
}

/// A failure of the transport between the client and the runtime.
#[derive(Debug, Eq, PartialEq)]
pub struct TransportError {
    pub kind: TransportErrorKind,
    pub message: String,
}

/// The value of a [`TransportError`].
pub struct TransportErrorView {
    pub kind: TransportErrorKind,
    pub message: Seq<char>,
}

impl View for TransportError {
    type V = TransportErrorView;

    open spec fn view(&self) -> TransportErrorView {
        TransportErrorView { kind: self.kind, message: self.message@ }
    }
}

/// Outcome of offering a message to a bounded queue.
#[derive(Clone, Copy, Debug, Eq, PartialEq, Structural)]
pub enum SendOutcome {
    Sent,
    Full,
    Closed,
}

/// What a client call returns after offering its message to the runtime's queue.
pub open spec fn submission_result(outcome: SendOutcome) -> Result<(), TransportErrorView> {
    match outcome {
        SendOutcome::Sent => Ok(()),
        SendOutcome::Full => Err(
            TransportErrorView {
                kind: TransportErrorKind::WouldBlock,
                message: "in-process app-server client queue is full"@,
            },
        ),
        SendOutcome::Closed => Err(
            TransportErrorView {
                kind: TransportErrorKind::BrokenPipe,
                message: "in-process app-server runtime is closed"@,
            },
        ),
    }
}

/// What a client call returns after offering its message to the runtime's queue.
///
/// Submission never waits: a full queue is reported as `WouldBlock`, a closed runtime as
/// `BrokenPipe`.
pub fn try_send_client_message(outcome: SendOutcome) -> (result: Result<(), TransportError>)
    ensures
        outcome == SendOutcome::Sent <==> result is Ok,
        outcome == SendOutcome::Full ==> result->Err_0@ == (TransportErrorView {
            kind: TransportErrorKind::WouldBlock,
            message: "in-process app-server client queue is full"@,
        }),
        outcome == SendOutcome::Closed ==> result->Err_0@ == (TransportErrorView {
            kind: TransportErrorKind::BrokenPipe,
            message: "in-process app-server runtime is closed"@,
        }),
        match result {
            Ok(_) => Ok(()),
            Err(error) => Err(error@),
        } == submission_result(outcome),
{
    match outcome {
        SendOutcome::Sent => Ok(()),
        SendOutcome::Full => Err(
            TransportError {
                kind: TransportErrorKind::WouldBlock,
                message: "in-process app-server client queue is full".to_owned(),
            },
        ),
        SendOutcome::Closed => Err(runtime_closed()),
    }
}

/// The failure of a call on a runtime that has gone away.
pub fn runtime_closed() -> (error: TransportError)
    ensures
        error@ == (TransportErrorView {
            kind: TransportErrorKind::BrokenPipe,
            message: "in-process app-server runtime is closed"@,
        }),
{
    TransportError {
        kind: TransportErrorKind::BrokenPipe,
        message: "in-process app-server runtime is closed".to_owned(),
    }
}

/// The failure of a request whose reply channel closed without a reply.
pub open spec fn lost_reply(cause: Seq<char>) -> TransportErrorView {
    TransportErrorView {
        kind: TransportErrorKind::BrokenPipe,
        message: "in-process request response channel closed: "@ + cause,
    }
}

/// The failure of a request whose reply channel closed without a reply.
pub fn response_channel_closed(cause: &str) -> (error: TransportError)
    ensures
        error@ == (TransportErrorView {
            kind: TransportErrorKind::BrokenPipe,
            message: "in-process request response channel closed: "@ + cause@,
        }),
        error@ == lost_reply(cause@),
{
    TransportError {
        kind: TransportErrorKind::BrokenPipe,
        message: "in-process request response channel closed: ".to_owned().concat(cause),
    }
}

/// The identifier under which the handshake sends its `initialize` request.
pub fn initialize_request_id() -> (id: RequestId)
    ensures
        id == RequestId::Integer(0),
{
    RequestId::Integer(0)
}

/// What startup does once the `initialize` request has been answered.
#[derive(Debug, Eq, PartialEq)]
pub enum HandshakeStep {
    /// Send `initialized` and hand the runtime to the caller.
    NotifyInitialized,
    /// Shut the runtime down and return the error.
    ShutDown(TransportError),
}

/// The error with which startup ends, given the message of a refusal to `initialize`.
pub open spec fn handshake_failure(refusal: Option<Seq<char>>) -> Option<TransportErrorView> {
    match refusal {
        Some(message) => Some(
            TransportErrorView {
                kind: TransportErrorKind::InvalidData,
                message: "in-process initialize failed: "@ + message,
            },
        ),
        None => None,
    }
}

/// Decides how startup continues after the reply to `initialize`; a refusal carries its message.
pub fn finish_handshake(reply: Result<(), String>) -> (step: HandshakeStep)
    ensures
        reply is Ok <==> step is NotifyInitialized,
        reply matches Err(message) ==> (step matches HandshakeStep::ShutDown(error) && error@ == (
        TransportErrorView {
            kind: TransportErrorKind::InvalidData,
            message: "in-process initialize failed: "@ + message@,
        })),
        match step {
            HandshakeStep::NotifyInitialized => None,
            HandshakeStep::ShutDown(error) => Some(error@),
        } == handshake_failure(
            match reply {
                Ok(_) => None,
                Err(message) => Some(message@),
            },
        ),
{
    match reply {
        Ok(_) => HandshakeStep::NotifyInitialized,
        Err(message) => HandshakeStep::ShutDown(
            TransportError {
                kind: TransportErrorKind::InvalidData,
                message: "in-process initialize failed: ".to_owned().concat(message.as_str()),
            },
        ),
    }
}

/// What the processor task learned from the announcements of new threads.
#[derive(Clone, Copy, Debug, Eq, PartialEq, Structural)]
pub enum ThreadAnnouncement {
    Created,
    Lagged,
    Closed,
}

/// The connection under which the embedded client is registered.
pub const IN_PROCESS_CONNECTION_ID: u64 = 0;

/// Whether a request turned the session initialized.
pub open spec fn turns_initialized(was_initialized: bool, is_initialized: bool) -> bool {
    !was_initialized && is_initialized
}

/// The connections to attach to a new thread.
pub open spec fn attached(announcement: ThreadAnnouncement, session_initialized: bool) -> Option<
    Seq<u64>,
> {
    match announcement {
        ThreadAnnouncement::Created => Some(
            if session_initialized {
                seq![IN_PROCESS_CONNECTION_ID]
            } else {
                Seq::empty()
            },
        ),
        _ => None,
    }
}

/// Whether the processor task goes on listening for threads.
pub open spec fn listens_after(listens: bool, announcement: ThreadAnnouncement) -> bool {
    listens && announcement != ThreadAnnouncement::Closed
}

/// Decisions of the processor task between two messages.
#[derive(Debug, Eq, PartialEq)]
pub struct ProcessorLoop {
    pub listen_for_threads: bool,
}

impl ProcessorLoop {
    pub fn new() -> (state: Self)
        ensures
            state.listen_for_threads,
    {
        ProcessorLoop { listen_for_threads: true }
    }

    /// Whether the startup notifications go out after a request: exactly when that request turned
    /// the session initialized.
    pub fn sends_initialize_notifications(was_initialized: bool, is_initialized: bool) -> (send: bool)
        ensures
            send == (!was_initialized && is_initialized),
            send == turns_initialized(was_initialized, is_initialized),
    {
        !was_initialized && is_initialized
    }

    /// Handles an announcement. For a new thread the result lists the connections to attach to
    /// it: the embedded client once its session is initialized, nobody before that.
    pub fn thread_announced(
        &mut self,
        announcement: ThreadAnnouncement,
        session_initialized: bool,
    ) -> (attach: Option<Vec<u64>>)
        ensures
            announcement == ThreadAnnouncement::Created <==> attach is Some,
            attach matches Some(connections) ==> connections@ == if session_initialized {
                seq![IN_PROCESS_CONNECTION_ID]
            } else {
                Seq::empty()
            },
            match attach {
                Some(connections) => Some(connections@),
                None => None,
            } == attached(announcement, session_initialized),
            final(self).listen_for_threads == listens_after(
                old(self).listen_for_threads,
                announcement,
            ),
            final(self).listen_for_threads == (old(self).listen_for_threads && announcement
                != ThreadAnnouncement::Closed),
    {
        match announcement {
            ThreadAnnouncement::Created => {
                let mut connections: Vec<u64> = Vec::new();
                if session_initialized {
                    connections.push(IN_PROCESS_CONNECTION_ID);
                }
                Some(connections)
            },
            ThreadAnnouncement::Lagged => None,
            ThreadAnnouncement::Closed => {
                self.listen_for_threads = false;
                None
            },
        }
    }
}

/// A queue holds as many messages as were asked for, and never none.
pub proof fn lemma_queues_hold_something(requested: usize)
    ensures
        queue_capacity(requested) >= 1,
        requested >= 1 ==> queue_capacity(requested) == requested,
        requested == 0 ==> queue_capacity(requested) == 1,
{
}

/// A submission succeeds exactly if the message was queued. The client can tell a full queue, which it may
/// try again, from a runtime that has gone.
pub proof fn lemma_submissions_tell_what_happened(outcome: SendOutcome, cause: Seq<char>)
    ensures
        submission_result(outcome) is Ok <==> outcome == SendOutcome::Sent,
        submission_result(outcome) matches Err(error) ==> {
            &&& error.kind == TransportErrorKind::WouldBlock <==> outcome == SendOutcome::Full
            &&& error.kind == TransportErrorKind::BrokenPipe <==> outcome == SendOutcome::Closed
            &&& outcome == SendOutcome::Full ==> error.message
                == "in-process app-server client queue is full"@
            &&& outcome == SendOutcome::Closed ==> error.message
                == "in-process app-server runtime is closed"@
        },
        lost_reply(cause).kind == TransportErrorKind::BrokenPipe,
        lost_reply(cause).message == "in-process request response channel closed: "@ + cause,
{
}

/// Startup fails exactly if `initialize` was refused, with the message of the refusal.
pub proof fn lemma_startup_fails_with_the_refusal(message: Seq<char>)
    ensures
        handshake_failure(None) is None,
        handshake_failure(Some(message)) matches Some(error) && error.kind
            == TransportErrorKind::InvalidData && error.message
            == "in-process initialize failed: "@ + message,
{
}

/// Startup notifications go out once, on the way from uninitialized to initialized. New threads are
/// attached to the embedded client, which is connection zero, once its session is initialized; other
/// announcements attach nothing. Listening ends when the announcements end, and stays ended.
pub proof fn lemma_what_the_processor_task_decides(
    before: bool,
    after: bool,
    listens: bool,
    announcement: ThreadAnnouncement,
)
    ensures
        turns_initialized(false, true),
        !turns_initialized(true, after),
        !turns_initialized(before, false),
        attached(ThreadAnnouncement::Created, true) == Some(seq![0u64]),
        attached(ThreadAnnouncement::Created, false) matches Some(connections)
            && connections.len() == 0,
        attached(ThreadAnnouncement::Lagged, before) is None,
        attached(ThreadAnnouncement::Closed, before) is None,
        !listens_after(listens, ThreadAnnouncement::Closed),
        !listens_after(false, announcement),
        listens_after(true, ThreadAnnouncement::Created),
        listens_after(true, ThreadAnnouncement::Lagged),
{
}

} // verus!
