use std::collections::VecDeque;

use codex_flows::event_delivery::{
    event_offered, server_notification_requires_delivery, waits_for_capacity, EventDisposition,
    InProcessServerEvent, ServerNotification,
};
use codex_flows::in_process::{
    channel_capacity, finish_handshake, initialize_request_id, response_channel_closed,
    runtime_closed, try_send_client_message, HandshakeStep, InProcessEventDelivery,
    InProcessStartOptions, ProcessorLoop, SendOutcome, ThreadAnnouncement, TransportError,
    TransportErrorKind, IN_PROCESS_CONNECTION_ID,
};
use codex_flows::request_id::RequestId;
use codex_flows::rpc_error::{RpcError, RpcErrorCode};
use codex_flows::runtime::{
    shutting_down_error, ErrorReply, ForwardResult, InProcessRuntime, LoopControl, OutgoingMessage,
    RequestStep, RouteStep, ShutdownPoll,
};
use codex_flows::runtime_loop::{ClientMessage, LoopAction, LoopEvent};
use codex_flows::shutdown::{RuntimeShutdown, ShutdownAction, ShutdownEvent, ShutdownStage};

fn warning(summary: &str) -> ServerNotification {
    ServerNotification::ConfigWarning {
        summary: summary.to_string(),
    }
}

fn internal(message: &str) -> RpcError {
    RpcError {
        code: RpcErrorCode::Internal,
        message: message.to_string(),
    }
}

/// Runs two warnings through a runtime whose event queue holds one event, and returns what the client
/// reads. The client reads when the runtime waits for it, and at the end.
fn saturated_warning_shutdown(delivery: InProcessEventDelivery) -> Vec<String> {
    let capacity = channel_capacity(1);
    let mut runtime = InProcessRuntime::new(delivery);
    let mut queue: VecDeque<InProcessServerEvent> = VecDeque::new();
    let mut read: Vec<InProcessServerEvent> = Vec::new();
    for summary in ["first warning", "second warning"] {
        let (action, control) =
            runtime.advance(LoopEvent::Outgoing(OutgoingMessage::Notification(warning(summary))));
        assert_eq!(control, LoopControl::Continue);
        let (event, wait) = match action {
            LoopAction::OfferEvent { event, wait } => (event, wait),
            other => panic!("unexpected action: {other:?}"),
        };
        if queue.len() == capacity && wait {
            read.extend(queue.pop_front());
        }
        if queue.len() < capacity {
            queue.push_back(event);
        } else {
            let (action, control) = runtime.advance(LoopEvent::EventOffered {
                event,
                outcome: SendOutcome::Full,
            });
            assert_eq!(action, LoopAction::Wait);
            assert_eq!(control, LoopControl::Continue);
        }
    }
    assert_eq!(
        runtime.advance(LoopEvent::ShutdownPolled(ShutdownPoll::Requested)),
        (LoopAction::CloseClientQueue, LoopControl::Continue)
    );
    assert_eq!(
        runtime.advance(LoopEvent::ClientQueueEnded),
        (LoopAction::Wait, LoopControl::Stop)
    );
    assert!(runtime.acknowledges_shutdown());
    read.extend(queue);
    read.into_iter()
        .map(|event| match event {
            InProcessServerEvent::ServerNotification(ServerNotification::ConfigWarning {
                summary,
            }) => summary,
            other => panic!("unexpected event: {other:?}"),
        })
        .collect()
}

#[test]
fn best_effort_delivery_drops_notifications_when_event_queue_is_full() {
    assert_eq!(
        saturated_warning_shutdown(InProcessEventDelivery::BestEffort),
        vec!["first warning"]
    );
}

#[test]
fn lossless_delivery_preserves_order_during_two_phase_shutdown() {
    assert_eq!(
        saturated_warning_shutdown(InProcessEventDelivery::Lossless),
        vec!["first warning", "second warning"]
    );
}

#[test]
fn shutdown_drains_client_messages_accepted_before_close() {
    let mut runtime = InProcessRuntime::new(InProcessEventDelivery::Lossless);
    let mut accepted = VecDeque::from([ClientMessage::Request {
        id: RequestId::Integer(6),
        slot: 60,
    }]);

    assert_eq!(
        runtime.advance(LoopEvent::ShutdownReceived { acknowledge: true }),
        (LoopAction::CloseClientQueue, LoopControl::Continue)
    );
    let mut answered = Vec::new();
    loop {
        let event = match accepted.pop_front() {
            Some(message) => LoopEvent::ClientMessage(message),
            None => LoopEvent::ClientQueueEnded,
        };
        let (action, control) = runtime.advance(event);
        if control == LoopControl::Stop {
            assert_eq!(action, LoopAction::Wait);
            break;
        }
        assert_eq!(action, LoopAction::ForwardRequest);
        let reply = OutgoingMessage::Response {
            id: RequestId::Integer(6),
        };
        match runtime.advance(LoopEvent::Outgoing(reply)) {
            (LoopAction::Reply { slot }, LoopControl::Continue) => answered.push(slot),
            other => panic!("accepted request should receive a response: {other:?}"),
        }
    }
    assert_eq!(answered, vec![60]);
    assert_eq!(runtime.finish(), Vec::new());
}

#[test]
fn in_process_start_clamps_zero_channel_capacity() {
    assert_eq!(channel_capacity(0), 1);
    assert_eq!(channel_capacity(1), 1);
    assert_eq!(channel_capacity(128), 128);
}

#[test]
fn guaranteed_delivery_helpers_cover_terminal_server_notifications() {
    assert!(server_notification_requires_delivery(
        &ServerNotification::TurnCompleted {
            thread_id: "thread-1".to_string(),
            turn_id: "turn-1".to_string(),
        }
    ));
    assert!(server_notification_requires_delivery(
        &ServerNotification::ExternalAgentConfigImportCompleted {
            import_id: "import".to_string(),
        }
    ));
}

#[test]
fn other_notifications_may_be_dropped() {
    assert!(!server_notification_requires_delivery(&warning("first warning")));
    assert!(!server_notification_requires_delivery(&ServerNotification::Other {
        method: "thread/started".to_string(),
    }));
}

#[test]
fn only_terminal_notifications_wait_under_best_effort_delivery() {
    let completed = InProcessServerEvent::ServerNotification(ServerNotification::TurnCompleted {
        thread_id: "thread-1".to_string(),
        turn_id: "turn-1".to_string(),
    });
    let request = InProcessServerEvent::ServerRequest {
        id: RequestId::Integer(7),
    };
    assert!(waits_for_capacity(InProcessEventDelivery::BestEffort, &completed));
    assert!(!waits_for_capacity(InProcessEventDelivery::BestEffort, &request));
    assert!(!waits_for_capacity(
        InProcessEventDelivery::BestEffort,
        &InProcessServerEvent::Lagged { skipped: 2 }
    ));
    assert!(waits_for_capacity(InProcessEventDelivery::Lossless, &request));
}

#[test]
fn undeliverable_server_requests_are_failed_back() {
    let request = || InProcessServerEvent::ServerRequest {
        id: RequestId::Text("approval".to_string()),
    };
    assert_eq!(
        event_offered(request(), SendOutcome::Full),
        EventDisposition {
            failed: Some((
                RequestId::Text("approval".to_string()),
                RpcError {
                    code: RpcErrorCode::Overloaded,
                    message: "in-process server request queue is full".to_string(),
                },
            )),
            dropped: false,
            consumer_open: true,
        }
    );
    assert_eq!(
        event_offered(request(), SendOutcome::Closed),
        EventDisposition {
            failed: Some((
                RequestId::Text("approval".to_string()),
                internal("in-process server request consumer is closed"),
            )),
            dropped: false,
            consumer_open: false,
        }
    );
    assert_eq!(
        event_offered(request(), SendOutcome::Sent),
        EventDisposition {
            failed: None,
            dropped: false,
            consumer_open: true,
        }
    );
}

#[test]
fn an_undelivered_server_request_is_failed_back_by_the_loop() {
    let mut runtime = InProcessRuntime::new(InProcessEventDelivery::BestEffort);
    let (action, _) = runtime.advance(LoopEvent::Outgoing(OutgoingMessage::Request {
        id: RequestId::Integer(9),
    }));
    let event = match action {
        LoopAction::OfferEvent { event, wait } => {
            assert!(!wait);
            event
        }
        other => panic!("unexpected action: {other:?}"),
    };
    assert_eq!(
        runtime.advance(LoopEvent::EventOffered {
            event,
            outcome: SendOutcome::Closed,
        }),
        (
            LoopAction::FailServerRequest {
                id: RequestId::Integer(9),
                error: internal("in-process server request consumer is closed"),
            },
            LoopControl::Stop,
        )
    );
}

#[test]
fn start_options_keep_what_was_chosen() {
    let options = InProcessStartOptions::<u8>::default();
    assert_eq!(options.thread_store, None);
    assert_eq!(options.event_delivery, InProcessEventDelivery::BestEffort);

    let options = InProcessStartOptions::default()
        .with_thread_store(3u8)
        .with_event_delivery(InProcessEventDelivery::Lossless);
    assert_eq!(options.thread_store, Some(3));
    assert_eq!(options.event_delivery, InProcessEventDelivery::Lossless);
    assert_eq!(
        InProcessEventDelivery::default(),
        InProcessEventDelivery::BestEffort
    );
}

#[test]
fn client_calls_report_full_and_closed_queues() {
    assert_eq!(try_send_client_message(SendOutcome::Sent), Ok(()));
    assert_eq!(
        try_send_client_message(SendOutcome::Full),
        Err(TransportError {
            kind: TransportErrorKind::WouldBlock,
            message: "in-process app-server client queue is full".to_string(),
        })
    );
    assert_eq!(
        try_send_client_message(SendOutcome::Closed),
        Err(runtime_closed())
    );
    assert_eq!(
        runtime_closed().message,
        "in-process app-server runtime is closed"
    );
    assert_eq!(
        response_channel_closed("channel closed"),
        TransportError {
            kind: TransportErrorKind::BrokenPipe,
            message: "in-process request response channel closed: channel closed".to_string(),
        }
    );
}

#[test]
fn handshake_ends_startup_when_initialize_is_refused() {
    assert_eq!(initialize_request_id(), RequestId::Integer(0));
    assert_eq!(finish_handshake(Ok(())), HandshakeStep::NotifyInitialized);
    assert_eq!(
        finish_handshake(Err("unsupported client".to_string())),
        HandshakeStep::ShutDown(TransportError {
            kind: TransportErrorKind::InvalidData,
            message: "in-process initialize failed: unsupported client".to_string(),
        })
    );
}

#[test]
fn duplicate_request_ids_are_answered_at_once() {
    let mut runtime = InProcessRuntime::new(InProcessEventDelivery::BestEffort);
    let id = RequestId::Integer(5);
    assert_eq!(runtime.client_request(&id, 1), RequestStep::Forward);
    assert_eq!(
        runtime.client_request(&id, 2),
        RequestStep::Reject(ErrorReply {
            slot: 2,
            error: RpcError {
                code: RpcErrorCode::InvalidRequest,
                message: "duplicate request id: Integer(5)".to_string(),
            },
        })
    );

    let text = RequestId::Text("a\"b".to_string());
    assert_eq!(runtime.client_request(&text, 3), RequestStep::Forward);
    match runtime.client_request(&text, 4) {
        RequestStep::Reject(reply) => assert_eq!(
            reply.error.message,
            "duplicate request id: String(\"a\\\"b\")"
        ),
        other => panic!("unexpected step: {other:?}"),
    }
    assert_eq!(
        runtime.route_queued_message(OutgoingMessage::Response { id }),
        RouteStep::Reply { slot: 1 }
    );
}

#[test]
fn requests_that_the_processor_refuses_are_answered() {
    let mut runtime = InProcessRuntime::new(InProcessEventDelivery::BestEffort);
    let id = RequestId::Integer(-12);
    assert_eq!(runtime.client_request(&id, 1), RequestStep::Forward);
    assert_eq!(
        runtime.request_forwarded(&id, SendOutcome::Full),
        ForwardResult {
            reply: Some(ErrorReply {
                slot: 1,
                error: RpcError {
                    code: RpcErrorCode::Overloaded,
                    message: "in-process app-server request queue is full".to_string(),
                },
            }),
            control: LoopControl::Continue,
        }
    );
    assert_eq!(runtime.client_request(&id, 2), RequestStep::Forward);
    assert_eq!(
        runtime.request_forwarded(&id, SendOutcome::Closed),
        ForwardResult {
            reply: Some(ErrorReply {
                slot: 2,
                error: internal("in-process app-server request processor is closed"),
            }),
            control: LoopControl::Stop,
        }
    );
}

#[test]
fn every_received_request_is_answered_once() {
    let mut runtime = InProcessRuntime::new(InProcessEventDelivery::BestEffort);
    let mut answered = Vec::new();
    for (id, slot) in [(1, 10), (2, 20), (1, 30), (3, 40)] {
        let message = ClientMessage::Request {
            id: RequestId::Integer(id),
            slot,
        };
        if let (LoopAction::ReplyWithError { slot, .. }, _) =
            runtime.advance(LoopEvent::ClientMessage(message))
        {
            answered.push(slot);
        }
    }
    for id in [2, 2] {
        let reply = OutgoingMessage::Error {
            id: RequestId::Integer(id),
        };
        if let (LoopAction::Reply { slot }, _) = runtime.advance(LoopEvent::Outgoing(reply)) {
            answered.push(slot);
        }
    }
    for reply in runtime.finish() {
        assert_eq!(reply.error, shutting_down_error());
        answered.push(reply.slot);
    }
    answered.sort();
    assert_eq!(answered, vec![10, 20, 30, 40]);
}

#[test]
fn unmatched_replies_are_ignored() {
    let mut runtime = InProcessRuntime::new(InProcessEventDelivery::BestEffort);
    assert_eq!(
        runtime.route_queued_message(OutgoingMessage::Response {
            id: RequestId::Integer(1)
        }),
        RouteStep::Unmatched
    );
}

#[test]
fn answers_to_server_requests_are_passed_on() {
    let mut runtime = InProcessRuntime::new(InProcessEventDelivery::BestEffort);
    assert_eq!(
        runtime.advance(LoopEvent::ClientMessage(
            ClientMessage::ServerRequestResponse {
                request_id: RequestId::Integer(3),
            }
        )),
        (
            LoopAction::ResolveServerRequest {
                request_id: RequestId::Integer(3),
            },
            LoopControl::Continue,
        )
    );
    assert_eq!(
        runtime.advance(LoopEvent::ClientMessage(ClientMessage::ServerRequestError {
            request_id: RequestId::Integer(4),
        })),
        (
            LoopAction::RejectServerRequest {
                request_id: RequestId::Integer(4),
            },
            LoopControl::Continue,
        )
    );
}

#[test]
fn notifications_are_dropped_by_a_full_processor_and_end_the_loop_of_a_closed_one() {
    let mut runtime = InProcessRuntime::new(InProcessEventDelivery::BestEffort);
    assert_eq!(
        runtime.advance(LoopEvent::ClientMessage(ClientMessage::Notification)),
        (LoopAction::ForwardNotification, LoopControl::Continue)
    );
    assert_eq!(
        runtime.advance(LoopEvent::NotificationForwarded {
            outcome: SendOutcome::Full
        }),
        (
            LoopAction::ReportDroppedNotification,
            LoopControl::Continue
        )
    );
    assert_eq!(
        runtime.advance(LoopEvent::NotificationForwarded {
            outcome: SendOutcome::Closed
        }),
        (LoopAction::Wait, LoopControl::Stop)
    );
    assert_eq!(
        runtime.advance(LoopEvent::OutgoingEnded),
        (LoopAction::Wait, LoopControl::Stop)
    );
}

#[test]
fn shutdown_is_requested_once() {
    let mut runtime = InProcessRuntime::new(InProcessEventDelivery::BestEffort);
    assert!(!runtime.shutdown_polled(ShutdownPoll::Empty));
    assert!(runtime.listens_for_shutdown());
    assert!(runtime.shutdown_polled(ShutdownPoll::Disconnected));
    assert!(!runtime.listens_for_shutdown());
    assert!(!runtime.shutdown_polled(ShutdownPoll::Requested));
    assert!(!runtime.acknowledges_shutdown());
    assert_eq!(
        runtime.advance(LoopEvent::ShutdownReceived { acknowledge: true }),
        (LoopAction::Wait, LoopControl::Continue)
    );
    assert!(!runtime.acknowledges_shutdown());
}

/// A runtime with two requests in flight, whose shutdown was requested.
fn stopped_runtime(acknowledge: bool) -> InProcessRuntime {
    let mut runtime = InProcessRuntime::new(InProcessEventDelivery::BestEffort);
    for (id, slot) in [(1, 10), (2, 20)] {
        let message = ClientMessage::Request {
            id: RequestId::Integer(id),
            slot,
        };
        runtime.advance(LoopEvent::ClientMessage(message));
    }
    runtime.advance(LoopEvent::ShutdownReceived { acknowledge });
    runtime
}

fn nothing() -> ShutdownAction {
    ShutdownAction::Route(LoopAction::Wait)
}

#[test]
fn answers_go_out_before_the_acknowledgement() {
    let mut shutdown = RuntimeShutdown::new(stopped_runtime(true));
    assert_eq!(shutdown.stage(), ShutdownStage::CancelServerRequests);
    assert_eq!(shutdown.advance(ShutdownEvent::Proceed), nothing());
    assert_eq!(shutdown.stage(), ShutdownStage::DrainProcessor);
    assert_eq!(
        shutdown.advance(ShutdownEvent::Message(OutgoingMessage::Response {
            id: RequestId::Integer(2)
        })),
        ShutdownAction::Route(LoopAction::Reply { slot: 20 })
    );
    assert_eq!(shutdown.advance(ShutdownEvent::Proceed), nothing());
    assert_eq!(shutdown.stage(), ShutdownStage::DrainProcessor);
    assert_eq!(shutdown.advance(ShutdownEvent::TaskFinished), nothing());
    assert_eq!(shutdown.stage(), ShutdownStage::DrainRouter);
    assert_eq!(shutdown.advance(ShutdownEvent::TimedOut), nothing());
    assert_eq!(shutdown.stage(), ShutdownStage::AbortRouter);
    assert_eq!(shutdown.advance(ShutdownEvent::Proceed), nothing());
    assert_eq!(shutdown.stage(), ShutdownStage::RouteLeftovers);
    assert_eq!(shutdown.advance(ShutdownEvent::Proceed), nothing());
    assert_eq!(shutdown.stage(), ShutdownStage::AnswerPending);
    assert_eq!(
        shutdown.advance(ShutdownEvent::Proceed),
        ShutdownAction::AnswerPending(vec![ErrorReply {
            slot: 10,
            error: internal("in-process app-server runtime is shutting down"),
        }])
    );
    assert_eq!(shutdown.stage(), ShutdownStage::Acknowledge);
    assert_eq!(
        shutdown.advance(ShutdownEvent::Proceed),
        ShutdownAction::Acknowledge
    );
    assert_eq!(shutdown.stage(), ShutdownStage::Ended);
    assert_eq!(shutdown.advance(ShutdownEvent::Proceed), nothing());
}

#[test]
fn draining_stops_with_the_consumer() {
    let mut shutdown = RuntimeShutdown::new(stopped_runtime(false));
    shutdown.advance(ShutdownEvent::Proceed);
    assert_eq!(
        shutdown.advance(ShutdownEvent::EventOffered {
            event: InProcessServerEvent::ServerRequest {
                id: RequestId::Integer(3)
            },
            outcome: SendOutcome::Closed,
        }),
        ShutdownAction::Route(LoopAction::FailServerRequest {
            id: RequestId::Integer(3),
            error: internal("in-process server request consumer is closed"),
        })
    );
    assert_eq!(shutdown.stage(), ShutdownStage::AbortProcessor);
    shutdown.advance(ShutdownEvent::Proceed);
    assert_eq!(shutdown.stage(), ShutdownStage::AbortRouter);
    shutdown.advance(ShutdownEvent::Proceed);
    assert_eq!(shutdown.stage(), ShutdownStage::AnswerPending);
    match shutdown.advance(ShutdownEvent::Proceed) {
        ShutdownAction::AnswerPending(replies) => assert_eq!(replies.len(), 2),
        other => panic!("unexpected action: {other:?}"),
    }
    // Nobody waits for an acknowledgement.
    assert_eq!(shutdown.stage(), ShutdownStage::Ended);
}

#[test]
fn server_requests_cannot_be_failed_without_the_processor() {
    let mut shutdown = RuntimeShutdown::new(stopped_runtime(false));
    shutdown.advance(ShutdownEvent::Proceed);
    shutdown.advance(ShutdownEvent::TimedOut);
    assert_eq!(shutdown.stage(), ShutdownStage::AbortProcessor);
    shutdown.advance(ShutdownEvent::Proceed);
    assert_eq!(shutdown.stage(), ShutdownStage::DrainRouter);
    let event = match shutdown.advance(ShutdownEvent::Message(OutgoingMessage::Request {
        id: RequestId::Integer(3),
    })) {
        ShutdownAction::Route(LoopAction::OfferEvent { event, wait }) => {
            assert!(!wait);
            event
        }
        other => panic!("unexpected action: {other:?}"),
    };
    assert_eq!(
        shutdown.advance(ShutdownEvent::EventOffered {
            event,
            outcome: SendOutcome::Full,
        }),
        nothing()
    );
    shutdown.advance(ShutdownEvent::TaskFinished);
    assert_eq!(shutdown.stage(), ShutdownStage::RouteLeftovers);
    shutdown.advance(ShutdownEvent::EventOffered {
        event: InProcessServerEvent::Lagged { skipped: 1 },
        outcome: SendOutcome::Closed,
    });
    assert_eq!(shutdown.stage(), ShutdownStage::AnswerPending);
}

#[test]
fn new_threads_are_attached_once_the_session_is_initialized() {
    let mut state = ProcessorLoop::new();
    assert_eq!(
        state.thread_announced(ThreadAnnouncement::Created, false),
        Some(Vec::new())
    );
    assert_eq!(
        state.thread_announced(ThreadAnnouncement::Created, true),
        Some(vec![IN_PROCESS_CONNECTION_ID])
    );
    assert_eq!(state.thread_announced(ThreadAnnouncement::Lagged, true), None);
    assert!(state.listen_for_threads);
    assert_eq!(state.thread_announced(ThreadAnnouncement::Closed, true), None);
    assert!(!state.listen_for_threads);
    assert!(ProcessorLoop::sends_initialize_notifications(false, true));
    assert!(!ProcessorLoop::sends_initialize_notifications(true, true));
    assert!(!ProcessorLoop::sends_initialize_notifications(false, false));
}
