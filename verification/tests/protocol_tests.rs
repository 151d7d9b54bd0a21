use pkl_bind::code::MessageCode;
use pkl_bind::decoder::decode_result;
use pkl_bind::errors::PklError;
use pkl_bind::evaluator::Evaluator;
use pkl_bind::evaluator_manager::EvaluatorManager;
use pkl_bind::evaluator_options::EvaluatorOptions;
use pkl_bind::incoming::{
    decode_incoming, CreateEvaluatorResponse, EvaluateResponse, IncomingMessage, ListModules, Log,
};
use pkl_bind::module_source::text_source;
use pkl_bind::msgpack::Value;
use pkl_bind::outgoing::{
    get_code, ListModulesResponse, OutgoingMessage, PathElement, ReadResourceResponse,
};
use pkl_bind::router::{Routed, Router};

fn default_options() -> EvaluatorOptions {
    EvaluatorOptions::with_defaults(Vec::new(), String::from("/tmp/cache"))
}

#[test]
fn test_decode_tuple() {
    // [ 33, {"requestId": 135, "evaluatorId": -135901, "error": null }]
    let eval_response: Vec<u8> = vec![
        0x92, 0x21, 0x83, 0xA9, 0x72, 0x65, 0x71, 0x75, 0x65, 0x73, 0x74, 0x49, 0x64, 0xCC, 0x87,
        0xAB, 0x65, 0x76, 0x61, 0x6C, 0x75, 0x61, 0x74, 0x6F, 0x72, 0x49, 0x64, 0xD2, 0xFF, 0xFD,
        0xED, 0x23, 0xA5, 0x65, 0x72, 0x72, 0x6F, 0x72, 0xC0,
    ];
    assert_eq!(eval_response[1], 0x21);
    let msg = decode_incoming(&eval_response).unwrap();
    println!("Result of Deserialization: {:?}", msg);
    let elem = msg.create_evaluator_response().unwrap();
    assert_eq!(elem.request_id, 135);
    assert_eq!(elem.evaluator_id, Some(-135901));
    assert_eq!(elem.error, None);

    // [ 33, {"requestId": 135, "evaluatorId": -135901 }] with the null
    // field omitted: decodes the same.
    let eval_null = vec![
        0x92, 0x21, 0x82, 0xA9, 0x72, 0x65, 0x71, 0x75, 0x65, 0x73, 0x74, 0x49, 0x64, 0xCC, 0x87,
        0xAB, 0x65, 0x76, 0x61, 0x6C, 0x75, 0x61, 0x74, 0x6F, 0x72, 0x49, 0x64, 0xD2, 0xFF, 0xFD,
        0xED, 0x23,
    ];
    assert_eq!(eval_null[1], 0x21);
    let msg2 = decode_incoming(&eval_null).unwrap();
    println!("Result of Deserialization: {:?}", msg2);
    let elem2 = msg2.create_evaluator_response().unwrap();
    assert_eq!(elem2.request_id, 135);
    assert_eq!(elem2.evaluator_id, Some(-135901));
    assert_eq!(elem2.error, None);
}

#[test]
fn create_evaluator_handshake_scenario() {
    // Sending CreateEvaluator{requestId: 140} and receiving a response
    // with evaluatorId -135901 yields an evaluator in state Created.
    let mut router = Router::new();
    router.register(140, 0).unwrap();
    let mut mgr = EvaluatorManager::new();
    let resp_bytes = vec![
        0x92, 0x21, 0x83, 0xA9, 0x72, 0x65, 0x71, 0x75, 0x65, 0x73, 0x74, 0x49, 0x64, 0xCC, 0x8C,
        0xAB, 0x65, 0x76, 0x61, 0x6C, 0x75, 0x61, 0x74, 0x6F, 0x72, 0x49, 0x64, 0xD2, 0xFF, 0xFD,
        0xED, 0x23, 0xA5, 0x65, 0x72, 0x72, 0x6F, 0x72, 0xC0,
    ];
    let msg = decode_incoming(&resp_bytes).unwrap();
    let routed = router.route(msg);
    let delivered = match routed {
        Routed::Deliver(id, m) => {
            assert_eq!(id, 140);
            m
        }
        other => panic!("expected a delivery, got {:?}", other),
    };
    let resp = delivered.create_evaluator_response().unwrap();
    assert_eq!(resp.request_id, 140);
    let id = mgr.accept_create_response(&resp, default_options()).unwrap();
    assert_eq!(id, -135901);
    // Created: present, and not closed.
    assert_eq!(mgr.evaluator_closed(-135901), Some(false));
}

#[test]
fn create_then_close_without_evaluate() {
    let mut mgr = EvaluatorManager::new();
    let resp = CreateEvaluatorResponse {
        request_id: 1,
        evaluator_id: Some(7),
        error: None,
    };
    let id = mgr.accept_create_response(&resp, default_options()).unwrap();
    assert_eq!(mgr.evaluator_closed(id), Some(false));
    let close = mgr.close_evaluator(id).unwrap();
    assert_eq!(close.evaluator_id, Some(7));
    assert_eq!(mgr.evaluator_closed(id), Some(true));
}

#[test]
fn creation_failure_never_yields_a_handle() {
    let mut mgr = EvaluatorManager::new();
    let with_error = CreateEvaluatorResponse {
        request_id: 2,
        evaluator_id: Some(9),
        error: Some("cache dir not writable".into()),
    };
    match mgr.accept_create_response(&with_error, default_options()) {
        Err(PklError::EvaluatorCreationFailed(m)) => {
            assert_eq!(m, "cache dir not writable");
        }
        other => panic!("expected creation failure, got {:?}", other),
    }
    // No evaluator joined the set.
    assert_eq!(mgr.evaluator_closed(9), None);

    let without_id = CreateEvaluatorResponse {
        request_id: 3,
        evaluator_id: None,
        error: None,
    };
    match mgr.accept_create_response(&without_id, default_options()) {
        Err(PklError::EvaluatorCreationFailed(_)) => {}
        other => panic!("expected creation failure, got {:?}", other),
    }
}

#[test]
fn close_twice_is_error_not_double_send() {
    let mut mgr = EvaluatorManager::new();
    let resp = CreateEvaluatorResponse {
        request_id: 4,
        evaluator_id: Some(11),
        error: None,
    };
    mgr.accept_create_response(&resp, default_options()).unwrap();
    assert!(mgr.close_evaluator(11).is_ok());
    // The second close produces no frame: only the error.
    assert_eq!(mgr.close_evaluator(11), Err(PklError::EvaluatorClosed));
    assert_eq!(mgr.close_evaluator(12), Err(PklError::UnknownEvaluator));
}

#[test]
fn teardown_closes_every_open_evaluator_once() {
    let mut mgr = EvaluatorManager::new();
    for id in [21i64, 22, 23] {
        let resp = CreateEvaluatorResponse {
            request_id: id,
            evaluator_id: Some(id),
            error: None,
        };
        mgr.accept_create_response(&resp, default_options()).unwrap();
    }
    mgr.close_evaluator(22).unwrap();
    let frames = mgr.close(); // 22 is already closed: no second frame for it
    let ids: Vec<Option<i64>> = frames.iter().map(|f| f.evaluator_id).collect();
    assert_eq!(ids, vec![Some(21), Some(23)]);
    for id in [21i64, 22, 23] {
        assert_eq!(mgr.evaluator_closed(id), Some(true));
    }
    // A second teardown has nothing left to close.
    assert!(mgr.close().is_empty());
}

#[test]
fn response_delivered_once_then_dropped() {
    let mut router = Router::new();
    router.register(7, 1).unwrap();
    let resp = IncomingMessage::EvaluateResponse(EvaluateResponse {
        request_id: 7,
        evaluator_id: 1,
        result: Some(vec![1, 2, 3]),
        error: None,
    });
    match router.route(resp) {
        Routed::Deliver(7, _) => {}
        other => panic!("expected delivery, got {:?}", other),
    }
    // The same id again: no caller is waiting, so the frame is dropped.
    let late = IncomingMessage::EvaluateResponse(EvaluateResponse {
        request_id: 7,
        evaluator_id: 1,
        result: None,
        error: None,
    });
    assert_eq!(
        match router.route(late) {
            Routed::DroppedLate(id) => id,
            other => panic!("expected a drop, got {:?}", other),
        },
        7
    );
}

#[test]
fn timeout_then_late_frame_is_dropped() {
    let mut router = Router::new();
    router.register(99, 1).unwrap();
    let err = router.on_timeout(99);
    assert_eq!(err, PklError::RequestTimedOut);
    let late = IncomingMessage::EvaluateResponse(EvaluateResponse {
        request_id: 99,
        evaluator_id: 1,
        result: Some(vec![]),
        error: None,
    });
    match router.route(late) {
        Routed::DroppedLate(99) => {}
        other => panic!("expected a drop, got {:?}", other),
    }
}

#[test]
fn duplicate_request_id_is_rejected() {
    let mut router = Router::new();
    router.register(5, 1).unwrap();
    assert_eq!(router.register(5, 2), Err(PklError::DuplicateRequestId));
    assert!(router.contains(5));
}

#[test]
fn callbacks_answered_in_order_before_final_response() {
    // An evaluate call that triggers two list-modules callbacks must see
    // both answered, in the order issued, before the response resolves.
    let mut router = Router::new();
    router.register(42, 5).unwrap();
    let mut replies: Vec<OutgoingMessage> = Vec::new();
    let mut result: Option<Vec<u8>> = None;

    let traffic = vec![
        IncomingMessage::ListModules(ListModules {
            request_id: 101,
            evaluator_id: 5,
            uri: "customfs:/a".into(),
        }),
        IncomingMessage::ListModules(ListModules {
            request_id: 102,
            evaluator_id: 5,
            uri: "customfs:/b".into(),
        }),
        IncomingMessage::EvaluateResponse(EvaluateResponse {
            request_id: 42,
            evaluator_id: 5,
            result: Some(vec![0xC0]),
            error: None,
        }),
    ];
    for msg in traffic {
        match router.route(msg) {
            Routed::Callback(cb) => {
                assert!(result.is_none(), "callback after the final response");
                let reply = EvaluatorManager::default_callback_reply(&cb).unwrap();
                replies.push(reply);
            }
            Routed::Deliver(42, m) => {
                let resp = m.evaluate_response().unwrap();
                result = Some(EvaluatorManager::handle_evaluate_response(&resp).unwrap());
            }
            other => panic!("unexpected routing {:?}", other),
        }
    }
    assert_eq!(result, Some(vec![0xC0]));
    assert_eq!(replies.len(), 2);
    match &replies[0] {
        OutgoingMessage::ListModulesResponse(r) => assert_eq!(r.request_id, 101),
        other => panic!("unexpected reply {:?}", other),
    }
    match &replies[1] {
        OutgoingMessage::ListModulesResponse(r) => assert_eq!(r.request_id, 102),
        other => panic!("unexpected reply {:?}", other),
    }
}

#[test]
fn callback_for_unknown_evaluator_is_refused() {
    let mut mgr = EvaluatorManager::new();
    let cb = IncomingMessage::ListModules(ListModules {
        request_id: 1,
        evaluator_id: 55,
        uri: "customfs:/x".into(),
    });
    assert_eq!(mgr.check_callback(&cb), Err(PklError::UnknownEvaluator));
    let resp = CreateEvaluatorResponse {
        request_id: 1,
        evaluator_id: Some(55),
        error: None,
    };
    mgr.accept_create_response(&resp, default_options()).unwrap();
    let cb = IncomingMessage::ListModules(ListModules {
        request_id: 2,
        evaluator_id: 55,
        uri: "customfs:/x".into(),
    });
    assert_eq!(mgr.check_callback(&cb), Ok(()));
    mgr.close_evaluator(55).unwrap();
    let cb = IncomingMessage::ListModules(ListModules {
        request_id: 3,
        evaluator_id: 55,
        uri: "customfs:/x".into(),
    });
    // After the close no message naming this evaluator is accepted.
    assert_eq!(mgr.check_callback(&cb), Err(PklError::EvaluatorClosed));
}

#[test]
fn new_evaluator_succeeds_on_a_fresh_router() {
    // With no pending requests, no random draw can collide: the
    // handshake frame is owed, with the allowed lists and cache
    // directory from the options and every other optional unset.
    let mgr = EvaluatorManager::new();
    let mut router = Router::new();
    let opts = default_options();
    let frame = mgr.new_evaluator(&mut router, &opts).unwrap();
    assert!(router.contains(frame.request_id));
    assert_eq!(frame.allowed_modules.as_ref(), Some(&opts.allowed_modules));
    assert_eq!(
        frame.allowed_resources.as_ref(),
        Some(&opts.allowed_resources)
    );
    assert_eq!(frame.cache_dir.as_deref(), Some("/tmp/cache"));
    assert!(frame.client_resource_readers.is_none());
    assert!(frame.client_module_readers.is_none());
    assert!(frame.module_paths.is_none());
    assert!(frame.env.is_none());
    assert!(frame.properties.is_none());
    assert!(frame.output_format.is_none());
    assert!(frame.root_dir.is_none());
    assert!(frame.project.is_none());
    assert!(frame.timeout_seconds.is_none());
}

#[test]
fn failed_session_is_terminal() {
    let mut mgr = EvaluatorManager::new();
    let resp = CreateEvaluatorResponse {
        request_id: 1,
        evaluator_id: Some(31),
        error: None,
    };
    mgr.accept_create_response(&resp, default_options()).unwrap();
    assert!(!mgr.connection_failed());
    mgr.fail_connection();
    assert!(mgr.connection_failed());
    // No further frame is produced on this session.
    let mut router = Router::new();
    assert_eq!(
        mgr.new_evaluator(&mut router, &default_options()),
        Err(PklError::ConnectionClosed)
    );
    assert_eq!(mgr.close_evaluator(31), Err(PklError::ConnectionClosed));
    // Teardown still marks the evaluator closed, but owes no frames.
    assert!(mgr.close().is_empty());
    assert_eq!(mgr.evaluator_closed(31), Some(true));
}

#[test]
fn failing_pending_returns_every_wait_in_order() {
    let mut router = Router::new();
    router.register(4, 1).unwrap();
    router.register(9, 1).unwrap();
    let dropped = router.fail_pending();
    let ids: Vec<i64> = dropped.iter().map(|p| p.request_id).collect();
    assert_eq!(ids, vec![4, 9]);
    assert!(!router.contains(4));
    assert!(!router.contains(9));
    // A fresh session can register the same ids again.
    assert!(router.register(4, 2).is_ok());
}

#[test]
fn evaluate_response_error_short_circuits() {
    let failed = EvaluateResponse {
        request_id: 1,
        evaluator_id: 1,
        result: Some(vec![1]),
        error: Some("boom".into()),
    };
    match EvaluatorManager::handle_evaluate_response(&failed) {
        Err(PklError::EvaluationFailed(m)) => assert_eq!(m, "boom"),
        other => panic!("expected evaluation failure, got {:?}", other),
    }
    let ok = EvaluateResponse {
        request_id: 1,
        evaluator_id: 1,
        result: Some(vec![9, 8]),
        error: None,
    };
    assert_eq!(
        EvaluatorManager::handle_evaluate_response(&ok),
        Ok(vec![9, 8])
    );
    let neither = EvaluateResponse {
        request_id: 1,
        evaluator_id: 1,
        result: None,
        error: None,
    };
    assert_eq!(
        EvaluatorManager::handle_evaluate_response(&neither),
        Err(PklError::ProtocolViolation)
    );
}

#[test]
fn unknown_code_and_malformed_frames() {
    // [0x2e, {}]: a frame whose code is outside the catalogue.
    assert_eq!(
        decode_incoming(&vec![0x92, 0x2e, 0x80]),
        Err(PklError::UnknownMessageCode(0x2e))
    );
    // Not a frame at all.
    assert_eq!(decode_incoming(&vec![0xc0]), Err(PklError::MalformedFrame));
    // A log frame missing its required fields.
    assert_eq!(
        decode_incoming(&vec![0x92, 0x25, 0x80]),
        Err(PklError::MalformedFrame)
    );
    assert_eq!(
        PklError::ConnectionClosed.kind_name(),
        "connection closed"
    );
}

#[test]
fn log_frame_decodes() {
    // [0x25, {"evaluatorId": 1, "level": 0, "message": "hi", "frameUri": "f"}]
    let bytes = vec![
        0x92, 0x25, 0x84, 0xAB, 0x65, 0x76, 0x61, 0x6C, 0x75, 0x61, 0x74, 0x6F, 0x72, 0x49, 0x64,
        0x01, 0xA5, 0x6C, 0x65, 0x76, 0x65, 0x6C, 0x00, 0xA7, 0x6D, 0x65, 0x73, 0x73, 0x61, 0x67,
        0x65, 0xA2, 0x68, 0x69, 0xA8, 0x66, 0x72, 0x61, 0x6D, 0x65, 0x55, 0x72, 0x69, 0xA1, 0x66,
    ];
    let msg = decode_incoming(&bytes).unwrap();
    let log = msg.log().unwrap();
    assert_eq!(
        log,
        Log {
            evaluator_id: 1,
            level: 0,
            message: "hi".into(),
            frame_uri: "f".into()
        }
    );
}

#[test]
fn callback_replies_carry_payload_or_error_never_both() {
    let ok = ReadResourceResponse::for_result(1, 2, Ok(vec![7, 8]));
    assert_eq!(ok.contents, Some(vec![7, 8]));
    assert_eq!(ok.error, None);
    let err = ReadResourceResponse::for_result(1, 2, Err("no such scheme".into()));
    assert_eq!(err.contents, None);
    assert_eq!(err.error.as_deref(), Some("no such scheme"));

    let listing = vec![PathElement {
        name: "foo.pkl".into(),
        is_directory: false,
    }];
    let ok = ListModulesResponse::for_result(3, 4, Ok(listing.clone()));
    assert_eq!(ok.path_elements, Some(listing));
    assert_eq!(ok.error, None);
    let err = ListModulesResponse::for_result(3, 4, Err("unreadable".into()));
    assert_eq!(err.path_elements, None);
    assert_eq!(err.error.as_deref(), Some("unreadable"));
}

#[test]
fn message_codes_round_trip() {
    for byte in 0x20u8..=0x2d {
        let code = MessageCode::try_from(byte).unwrap();
        assert_eq!(code.byte(), byte);
    }
    assert_eq!(MessageCode::try_from(0x1f), Err("Value out of range"));
    assert_eq!(MessageCode::try_from(0x2e), Err("Value out of range"));
    let msg = OutgoingMessage::Evaluate(pkl_bind::outgoing::Evaluate {
        request_id: 1,
        evaluator_id: 2,
        module_uri: "repl:/".into(),
        module_text: None,
        expr: None,
    });
    assert_eq!(get_code(&msg), (0x23, Some(0x24)));
}

#[test]
fn evaluator_request_building() {
    let opts = default_options();
    let evaluator = Evaluator {
        evaluator_id: 5,
        logger: pkl_bind::logger::Logger::StderrLogger,
        pending_requests: Vec::new(),
        closed: false,
        resource_readers: Vec::new(),
        module_readers: Vec::new(),
        opts,
    };
    let source = text_source("Attribute = 1".into());
    assert_eq!(source.uri(), "repl:/");
    assert_eq!(source.contents().as_deref(), Some("Attribute = 1"));
    let req = evaluator
        .evaluate_request(77, &source, Some("Attribute".into()))
        .unwrap();
    assert_eq!(req.request_id, 77);
    assert_eq!(req.evaluator_id, 5);
    assert_eq!(req.module_uri, "repl:/");
    assert_eq!(req.module_text.as_deref(), Some("Attribute = 1"));
    assert_eq!(req.expr.as_deref(), Some("Attribute"));

    let closed = Evaluator {
        closed: true,
        ..evaluator
    };
    assert_eq!(
        closed.evaluate_request(78, &source, None),
        Err(PklError::EvaluatorClosed)
    );
}

#[test]
fn default_options_test() {
    let defaults = default_options();
    defaults.logger.trace("hello, ".into(), "world".into());
    assert_eq!(
        defaults.allowed_modules,
        vec![
            "pkl:", "repl:", "file:", "http:", "https:", "modulepath:", "package:",
            "projectpackage:"
        ]
    );
    assert_eq!(
        defaults.allowed_resources,
        vec![
            "http:", "https:", "file:", "env:", "prop:", "modulepath:", "package:",
            "projectpackage:"
        ]
    );
    assert_eq!(defaults.cache_dir, "/tmp/cache");
    assert!(defaults.properties.is_empty());
    assert!(defaults.resource_readers.is_empty());
}

#[test]
fn test_simple_decode() {
    // [1, "Test", "file:///...test.pkl", [[16, "foo", 1], [16, "bar", 2]]]
    let data = vec![
        0x94, 0x01, 0xA4, 0x54, 0x65, 0x73, 0x74, 0xD9, 0x44, 0x66, 0x69, 0x6C, 0x65, 0x3A, 0x2F,
        0x2F, 0x2F, 0x68, 0x6F, 0x6D, 0x65, 0x2F, 0x73, 0x74, 0x6F, 0x72, 0x6D, 0x62, 0x6C, 0x65,
        0x73, 0x73, 0x65, 0x64, 0x2F, 0x43, 0x6F, 0x64, 0x65, 0x2F, 0x70, 0x6B, 0x6C, 0x2D, 0x72,
        0x75, 0x73, 0x74, 0x2F, 0x73, 0x72, 0x63, 0x2F, 0x65, 0x76, 0x61, 0x6C, 0x75, 0x61, 0x74,
        0x6F, 0x72, 0x2F, 0x74, 0x65, 0x73, 0x74, 0x73, 0x2F, 0x74, 0x65, 0x73, 0x74, 0x2E, 0x70,
        0x6B, 0x6C, 0x92, 0x93, 0x10, 0xA3, 0x66, 0x6F, 0x6F, 0x01, 0x93, 0x10, 0xA3, 0x62, 0x61,
        0x72, 0x02,
    ];
    let tree = decode_result(&data).unwrap();
    println!("Unmarshalled: {:?}", tree);
    assert_eq!(tree.version_tag, 1);
    assert_eq!(tree.qualified_name, "Test");
    assert!(tree.origin_uri.ends_with("test.pkl"));
    assert_eq!(tree.fields.len(), 2);
    assert_eq!(tree.fields[0].slot, 16);
    assert_eq!(tree.fields[0].name, "foo");
    assert_eq!(tree.fields[0].value, Value::Int(1));
    assert_eq!(tree.fields[1].slot, 16);
    assert_eq!(tree.fields[1].name, "bar");
    assert_eq!(tree.fields[1].value, Value::Int(2));
    // Bytes that are not a result tree are refused.
    assert_eq!(decode_result(&vec![0xc0]), Err(PklError::MalformedFrame));
}
