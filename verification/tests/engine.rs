use wamp_core::messages::{Arg, Msg, WampDict, WampError, INVOCATION_ID, SUBSCRIBE_ID};
use wamp_core::session::{
    abort_request, call, handle_request, handshake_on_frame, invoke_yield, join_realm_start,
    leave_realm, no_such_procedure_error, on_inbound, publish, register, shutdown, subscribe,
    unregister, unsubscribe, Core, Dispatch, HandshakeStep, Request, RequestOutcome, SessionState,
};

#[test]
fn fresh_core_is_not_valid() {
    let core = Core::new();
    assert!(!core.valid_session());
    assert_eq!(core.session_state(), SessionState::Unauthenticated);
}

#[test]
fn subscribe_allocates_ids_from_one() {
    let mut core = Core::new();
    let (id, frame) = subscribe(&mut core, "com.example.topic".to_string(), WampDict::new(), 7);
    assert_eq!(id, 1);
    match frame {
        Msg::Subscribe { request, topic, .. } => {
            assert_eq!(request, 1);
            assert_eq!(topic, "com.example.topic");
        }
        other => panic!("expected SUBSCRIBE, got {:?}", other),
    }
    let (id2, _) = subscribe(&mut core, "com.example.other".to_string(), WampDict::new(), 8);
    assert_eq!(id2, 2);
}

#[test]
fn subscribed_resolves_the_matching_continuation() {
    let mut core = Core::new();
    let (id_a, _) = subscribe(&mut core, "com.a".to_string(), WampDict::new(), 100);
    let (id_b, _) = subscribe(&mut core, "com.b".to_string(), WampDict::new(), 200);
    // Responses arrive out of order; each resolves its own continuation.
    let d_b = on_inbound(&mut core, Msg::Subscribed { request: id_b, subscription: 42 });
    assert_eq!(d_b, Dispatch::SubscribedOk { cont: 200, subscription: 42 });
    let d_a = on_inbound(&mut core, Msg::Subscribed { request: id_a, subscription: 43 });
    assert_eq!(d_a, Dispatch::SubscribedOk { cont: 100, subscription: 43 });
}

#[test]
fn a_request_id_never_resolves_twice() {
    let mut core = Core::new();
    let (id, _) = subscribe(&mut core, "com.a".to_string(), WampDict::new(), 100);
    let first = on_inbound(&mut core, Msg::Subscribed { request: id, subscription: 42 });
    assert!(matches!(first, Dispatch::SubscribedOk { .. }));
    let second = on_inbound(&mut core, Msg::Subscribed { request: id, subscription: 43 });
    assert_eq!(second, Dispatch::Ignored);
    let as_error = on_inbound(
        &mut core,
        Msg::Error {
            typ: SUBSCRIBE_ID,
            request: id,
            details: WampDict::new(),
            error: "com.oops".to_string(),
            arguments: None,
            arguments_kw: None,
        },
    );
    assert_eq!(as_error, Dispatch::Ignored);
}

#[test]
fn unsubscribe_of_unknown_id_fails_without_a_frame() {
    let mut core = Core::new();
    let r = unsubscribe(&mut core, 9999, 5);
    match r {
        Err(WampError::CallerError(m)) => {
            assert_eq!(m, "Tried to unsubscribe from unknown sub_id");
        }
        other => panic!("expected a caller error, got {:?}", other),
    }
}

#[test]
fn unsubscribe_of_known_id_sends_and_removes_eagerly() {
    let mut core = Core::new();
    let (id, _) = subscribe(&mut core, "com.a".to_string(), WampDict::new(), 100);
    on_inbound(&mut core, Msg::Subscribed { request: id, subscription: 42 });
    let r = unsubscribe(&mut core, 42, 101);
    let (req, frame) = r.expect("known subscription must unsubscribe");
    assert_eq!(frame, Msg::Unsubscribe { request: req, subscription: 42 });
    // The local entry went away eagerly: a second unsubscribe is a caller error.
    assert!(unsubscribe(&mut core, 42, 102).is_err());
    // The broker's ack resolves the parked continuation with no id.
    let ack = on_inbound(&mut core, Msg::Unsubscribed { request: req });
    assert_eq!(ack, Dispatch::AckOk { cont: 101, publication: None });
}

#[test]
fn publish_ack_carries_the_publication_id() {
    let mut core = Core::new();
    let (id, frame) = publish(
        &mut core,
        "com.news".to_string(),
        WampDict::new(),
        Some(vec![Arg::Integer(1)]),
        None,
        77,
    );
    match frame {
        Msg::Publish { request, topic, arguments, .. } => {
            assert_eq!(request, id);
            assert_eq!(topic, "com.news");
            assert_eq!(arguments, Some(vec![Arg::Integer(1)]));
        }
        other => panic!("expected PUBLISH, got {:?}", other),
    }
    let ack = on_inbound(&mut core, Msg::Published { request: id, publication: 555 });
    assert_eq!(ack, Dispatch::AckOk { cont: 77, publication: Some(555) });
}

#[test]
fn register_then_invocation_reaches_the_handler() {
    let mut core = Core::new();
    let (id, _) = register(&mut core, "com.proc".to_string(), 300, 41, None);
    let d = on_inbound(&mut core, Msg::Registered { request: id, registration: 99 });
    assert_eq!(d, Dispatch::RegisteredOk { cont: 300, registration: 99 });
    let inv = on_inbound(
        &mut core,
        Msg::Invocation {
            request: 1000,
            registration: 99,
            details: WampDict::new(),
            arguments: Some(vec![Arg::Str("x".to_string())]),
            arguments_kw: None,
        },
    );
    assert_eq!(
        inv,
        Dispatch::Invoke {
            handler: 41,
            request: 1000,
            arguments: Some(vec![Arg::Str("x".to_string())]),
            arguments_kw: None,
        }
    );
}

#[test]
fn invocation_for_unknown_registration_is_answered_not_dropped() {
    let mut core = Core::new();
    let d = on_inbound(
        &mut core,
        Msg::Invocation {
            request: 1000,
            registration: 12345,
            details: WampDict::new(),
            arguments: None,
            arguments_kw: None,
        },
    );
    assert_eq!(d, Dispatch::NoSuchProcedure { request: 1000 });
    let frame = no_such_procedure_error(1000);
    match frame {
        Msg::Error { typ, request, error, .. } => {
            assert_eq!(typ, INVOCATION_ID);
            assert_eq!(request, 1000);
            assert_eq!(error, "wamp.error.no_such_procedure");
        }
        other => panic!("expected ERROR, got {:?}", other),
    }
}

#[test]
fn unregister_of_unknown_id_fails_without_a_frame() {
    let mut core = Core::new();
    let r = unregister(&mut core, 31337, 5);
    match r {
        Err(WampError::CallerError(m)) => {
            assert_eq!(m, "Tried to unregister RPC using invalid ID");
        }
        other => panic!("expected a caller error, got {:?}", other),
    }
}

#[test]
fn unregister_removes_the_handler_before_the_ack() {
    let mut core = Core::new();
    let (id, _) = register(&mut core, "com.proc".to_string(), 300, 41, None);
    on_inbound(&mut core, Msg::Registered { request: id, registration: 99 });
    let (req, frame) = unregister(&mut core, 99, 301).expect("known registration");
    assert_eq!(frame, Msg::Unregister { request: req, registration: 99 });
    // An INVOCATION racing the in-flight unregister finds no handler.
    let inv = on_inbound(
        &mut core,
        Msg::Invocation {
            request: 2000,
            registration: 99,
            details: WampDict::new(),
            arguments: None,
            arguments_kw: None,
        },
    );
    assert_eq!(inv, Dispatch::NoSuchProcedure { request: 2000 });
}

#[test]
fn call_resolves_on_result_or_error() {
    let mut core = Core::new();
    let (id, _) = call(&mut core, "com.proc".to_string(), WampDict::new(), None, None, 500);
    let d = on_inbound(
        &mut core,
        Msg::RpcResult {
            request: id,
            details: WampDict::new(),
            arguments: Some(vec![Arg::Integer(9)]),
            arguments_kw: None,
        },
    );
    assert_eq!(
        d,
        Dispatch::CallOk { cont: 500, arguments: Some(vec![Arg::Integer(9)]), arguments_kw: None }
    );

    let (id2, _) = call(&mut core, "com.proc".to_string(), WampDict::new(), None, None, 501);
    let d2 = on_inbound(
        &mut core,
        Msg::Error {
            typ: wamp_core::messages::CALL_ID,
            request: id2,
            details: WampDict::new(),
            error: "com.some.error".to_string(),
            arguments: Some(vec![Arg::Str("why".to_string())]),
            arguments_kw: None,
        },
    );
    assert_eq!(
        d2,
        Dispatch::Failed {
            cont: 501,
            error_uri: "com.some.error".to_string(),
            arguments: Some(vec![Arg::Str("why".to_string())]),
            arguments_kw: None,
        }
    );
}

#[test]
fn error_with_unknown_type_is_ignored() {
    let mut core = Core::new();
    let d = on_inbound(
        &mut core,
        Msg::Error {
            typ: 12345,
            request: 1,
            details: WampDict::new(),
            error: "com.oops".to_string(),
            arguments: None,
            arguments_kw: None,
        },
    );
    assert_eq!(d, Dispatch::Ignored);
}

#[test]
fn abort_request_frees_the_id_and_returns_the_continuation() {
    let mut core = Core::new();
    let (id, _) = subscribe(&mut core, "com.a".to_string(), WampDict::new(), 100);
    assert_eq!(abort_request(&mut core, id), Some(100));
    // The continuation is gone: the response finds nobody.
    let d = on_inbound(&mut core, Msg::Subscribed { request: id, subscription: 42 });
    assert_eq!(d, Dispatch::Ignored);
    assert_eq!(abort_request(&mut core, id), None);
}

#[test]
fn leave_marks_invalid_and_ids_keep_increasing() {
    let mut core = Core::new();
    let (id1, _) = subscribe(&mut core, "com.a".to_string(), WampDict::new(), 1);
    assert_eq!(id1, 1);
    let goodbye = leave_realm(&mut core);
    match goodbye {
        Msg::Goodbye { reason, .. } => assert_eq!(reason, "wamp.close.close_realm"),
        other => panic!("expected GOODBYE, got {:?}", other),
    }
    assert!(!core.valid_session());
    assert_eq!(core.session_state(), SessionState::Closed);
    // The request-id sequence never restarts from the beginning.
    let (id2, _) = subscribe(&mut core, "com.b".to_string(), WampDict::new(), 2);
    assert_eq!(id2, 2);
}

#[test]
fn shutdown_fails_every_outstanding_continuation_exactly_once() {
    let mut core = Core::new();
    let (id_a, _) = subscribe(&mut core, "com.a".to_string(), WampDict::new(), 100);
    let (id_b, _) = publish(&mut core, "com.b".to_string(), WampDict::new(), None, None, 200);
    let (id_c, _) = register(&mut core, "com.c".to_string(), 300, 9, None);
    let (id_d, _) = call(&mut core, "com.d".to_string(), WampDict::new(), None, None, 400);
    let mut drained = shutdown(&mut core);
    drained.sort();
    assert_eq!(drained, vec![(id_a, 100), (id_b, 200), (id_c, 300), (id_d, 400)]);
    assert!(!core.valid_session());
    assert_eq!(core.session_state(), SessionState::Closed);
    // Nothing is left to resolve.
    let d = on_inbound(&mut core, Msg::Subscribed { request: id_a, subscription: 1 });
    assert_eq!(d, Dispatch::Ignored);
}

#[test]
fn challenge_without_handler_fails_the_join_and_sends_no_authenticate() {
    let mut core = Core::new();
    let hello = join_realm_start(
        &mut core,
        "com.realm".to_string(),
        vec![wamp_core::ClientRole::Caller],
        None,
        Vec::new(),
        None,
        None,
    );
    assert!(matches!(hello, Msg::Hello { .. }));
    let step = handshake_on_frame(
        &mut core,
        Msg::Challenge {
            authentication_method: "wampcra".to_string(),
            extra: WampDict::new(),
        },
        false,
    );
    match step {
        HandshakeStep::Failed { error: WampError::AuthenticationError(_) } => {}
        other => panic!("expected an authentication failure, got {:?}", other),
    }
    assert!(!core.valid_session());
    assert_eq!(core.session_state(), SessionState::Closed);
}

#[test]
fn challenge_with_handler_round_trips_to_welcome() {
    let mut core = Core::new();
    let _hello = join_realm_start(
        &mut core,
        "com.realm".to_string(),
        vec![wamp_core::ClientRole::Callee],
        None,
        Vec::new(),
        None,
        None,
    );
    let step = handshake_on_frame(
        &mut core,
        Msg::Challenge {
            authentication_method: "wampcra".to_string(),
            extra: WampDict::new(),
        },
        true,
    );
    match step {
        HandshakeStep::AwaitChallenge { authentication_method, .. } => {
            assert_eq!(authentication_method, "wampcra");
        }
        other => panic!("expected a challenge await, got {:?}", other),
    }
    let auth = wamp_core::session::challenge_reply(
        &mut core,
        "signed".to_string(),
        WampDict::new(),
    );
    match auth {
        Msg::Authenticate { signature, .. } => assert_eq!(signature, "signed"),
        other => panic!("expected AUTHENTICATE, got {:?}", other),
    }
    let step = handshake_on_frame(
        &mut core,
        Msg::Welcome { session: 777, details: WampDict::new() },
        true,
    );
    assert_eq!(step, HandshakeStep::Established { session: 777, details: WampDict::new() });
    assert!(core.valid_session());
    assert_eq!(core.session_state(), SessionState::Established);
}

#[test]
fn unexpected_frame_during_join_is_a_protocol_violation() {
    let mut core = Core::new();
    let _ = join_realm_start(
        &mut core,
        "com.realm".to_string(),
        vec![wamp_core::ClientRole::Publisher],
        None,
        Vec::new(),
        None,
        None,
    );
    let step = handshake_on_frame(&mut core, Msg::Unsubscribed { request: 1 }, true);
    match step {
        HandshakeStep::Failed { error: WampError::ProtocolViolation(m) } => {
            assert_eq!(m, "Server did not respond with WELCOME");
        }
        other => panic!("expected a protocol violation, got {:?}", other),
    }
    assert!(!core.valid_session());
}

#[test]
fn transport_failure_mid_join_never_becomes_valid() {
    let mut core = Core::new();
    let _ = join_realm_start(
        &mut core,
        "com.realm".to_string(),
        vec![wamp_core::ClientRole::Caller],
        None,
        Vec::new(),
        None,
        None,
    );
    // The transport broke while awaiting WELCOME: tear the session down.
    let _ = shutdown(&mut core);
    assert!(!core.valid_session());
    // A late WELCOME reaching the dispatcher is unexpected and changes nothing.
    let d = on_inbound(&mut core, Msg::Welcome { session: 5, details: WampDict::new() });
    assert_eq!(d, Dispatch::Unexpected);
    assert!(!core.valid_session());
    assert_eq!(core.session_state(), SessionState::Closed);
}

#[test]
fn peer_goodbye_closes_the_session() {
    let mut core = Core::new();
    let d = on_inbound(
        &mut core,
        Msg::Goodbye { reason: "wamp.close.normal".to_string(), details: WampDict::new() },
    );
    assert_eq!(d, Dispatch::PeerGoodbye);
    assert!(!core.valid_session());
    assert_eq!(core.session_state(), SessionState::Closed);
}

#[test]
fn yield_carries_the_handler_result() {
    let frame = invoke_yield(1000, Ok((Some(vec![Arg::Integer(42)]), Some(WampDict::new()))));
    match frame {
        Msg::Yield { request, arguments, arguments_kw, .. } => {
            assert_eq!(request, 1000);
            assert_eq!(arguments, Some(vec![Arg::Integer(42)]));
            assert_eq!(arguments_kw, Some(WampDict::new()));
        }
        other => panic!("expected YIELD, got {:?}", other),
    }
}

#[test]
fn handler_application_error_is_forwarded_verbatim() {
    let frame = invoke_yield(
        1000,
        Err(WampError::ApplicationError(
            "app.bad".to_string(),
            wamp_core::messages::ErrorDetails {
                arguments: Some(vec![Arg::Str("x".to_string())]),
                arguments_kw: None,
            },
        )),
    );
    match frame {
        Msg::Error { typ, request, error, arguments, arguments_kw, .. } => {
            assert_eq!(typ, INVOCATION_ID);
            assert_eq!(request, 1000);
            assert_eq!(error, "app.bad");
            assert_eq!(arguments, Some(vec![Arg::Str("x".to_string())]));
            assert_eq!(arguments_kw, None);
        }
        other => panic!("expected ERROR, got {:?}", other),
    }
}

#[test]
fn other_handler_errors_use_the_generic_uri() {
    let frame = invoke_yield(1000, Err(WampError::CallerError("nope".to_string())));
    match frame {
        Msg::Error { typ, request, error, arguments, .. } => {
            assert_eq!(typ, INVOCATION_ID);
            assert_eq!(request, 1000);
            assert_eq!(error, "wamp.async.rs.rpc.failed");
            assert_eq!(arguments, Some(vec![Arg::Str("caller error: nope".to_string())]));
        }
        other => panic!("expected ERROR, got {:?}", other),
    }
}

#[test]
fn request_table_subscribe_sends_and_parks() {
    let mut core = Core::new();
    let outcome = handle_request(
        &mut core,
        Request::Subscribe { uri: "com.a".to_string(), options: WampDict::new(), res: 9 },
    );
    match outcome {
        RequestOutcome::SendRequest { request, frame } => {
            assert_eq!(request, 1);
            assert!(matches!(frame, Msg::Subscribe { .. }));
        }
        other => panic!("expected a SUBSCRIBE instruction, got {:?}", other),
    }
    let d = on_inbound(&mut core, Msg::Subscribed { request: 1, subscription: 8 });
    assert_eq!(d, Dispatch::SubscribedOk { cont: 9, subscription: 8 });
}

#[test]
fn request_table_rejects_unknown_unsubscribe() {
    let mut core = Core::new();
    let outcome = handle_request(&mut core, Request::Unsubscribe { sub_id: 4, res: 9 });
    match outcome {
        RequestOutcome::RejectCaller { res, error } => {
            assert_eq!(res, 9);
            assert!(matches!(error, WampError::CallerError(_)));
        }
        other => panic!("expected an immediate rejection, got {:?}", other),
    }
}

#[test]
fn request_table_leave_and_shutdown() {
    let mut core = Core::new();
    let outcome = handle_request(&mut core, Request::Leave { res: 3 });
    match outcome {
        RequestOutcome::SendThenResolve { res, frame } => {
            assert_eq!(res, 3);
            assert!(matches!(frame, Msg::Goodbye { .. }));
        }
        other => panic!("expected a GOODBYE instruction, got {:?}", other),
    }
    assert!(!core.valid_session());
    let outcome = handle_request(&mut core, Request::Shutdown);
    assert_eq!(outcome, RequestOutcome::ShutdownNow);
}

#[test]
fn request_table_answers_an_invocation_outcome() {
    let mut core = Core::new();
    let outcome = handle_request(
        &mut core,
        Request::InvocationResult { request: 70, res: Ok((Some(vec![Arg::Integer(5)]), None)) },
    );
    match outcome {
        RequestOutcome::SendPlain { frame } => match frame {
            Msg::Yield { request, arguments, .. } => {
                assert_eq!(request, 70);
                assert_eq!(arguments, Some(vec![Arg::Integer(5)]));
            }
            other => panic!("expected YIELD, got {:?}", other),
        },
        other => panic!("expected a frame to send, got {:?}", other),
    }
}

#[test]
fn register_error_drops_the_parked_handler() {
    let mut core = Core::new();
    let (id, _) = register(&mut core, "com.proc".to_string(), 300, 41, None);
    let d = on_inbound(
        &mut core,
        Msg::Error {
            typ: wamp_core::messages::REGISTER_ID,
            request: id,
            details: WampDict::new(),
            error: "wamp.error.not_authorized".to_string(),
            arguments: None,
            arguments_kw: None,
        },
    );
    assert_eq!(
        d,
        Dispatch::Failed {
            cont: 300,
            error_uri: "wamp.error.not_authorized".to_string(),
            arguments: None,
            arguments_kw: None,
        }
    );
    // The handler never reached the registration table.
    let inv = on_inbound(
        &mut core,
        Msg::Invocation {
            request: 2000,
            registration: 99,
            details: WampDict::new(),
            arguments: None,
            arguments_kw: None,
        },
    );
    assert_eq!(inv, Dispatch::NoSuchProcedure { request: 2000 });
}

#[test]
fn unregister_error_resolves_the_ack_table() {
    let mut core = Core::new();
    let (id, _) = register(&mut core, "com.proc".to_string(), 300, 41, None);
    on_inbound(&mut core, Msg::Registered { request: id, registration: 99 });
    let (req, _) = unregister(&mut core, 99, 301).expect("known registration");
    let d = on_inbound(
        &mut core,
        Msg::Error {
            typ: wamp_core::messages::UNREGISTER_ID,
            request: req,
            details: WampDict::new(),
            error: "wamp.error.no_such_registration".to_string(),
            arguments: None,
            arguments_kw: None,
        },
    );
    assert_eq!(
        d,
        Dispatch::Failed {
            cont: 301,
            error_uri: "wamp.error.no_such_registration".to_string(),
            arguments: None,
            arguments_kw: None,
        }
    );
}
