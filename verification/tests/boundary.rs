//! Values that cross the component boundary, hooks and drivers.

use actr_hyper::conflict_key::{ConflictKey, ConflictKeySpec, KeySource};
use actr_hyper::dynclib::DynclibInstance;
use actr_hyper::executor::Submitted;
use actr_hyper::hooks::{
    BackpressureEvent, CredentialEvent, PackageHookEvent, PeerEvent, WallTime, WebRtcPeerStatus,
};
use actr_hyper::message::{
    DataChunk, Dest, InvocationContext, MetadataEntry, PayloadType, RpcEnvelope,
};
use actr_hyper::protocol::{ActrError, ActrId, ActrType, Realm};
use actr_hyper::dispatch::Submission;
use actr_hyper::test_support::{
    TestDedupWaiter, TestDynclibWorkload, TestNativeConcurrentDispatcher,
    TestNativeSerialDispatcher, TestPackageHookEvent, TestWasmWorkload,
};
use actr_hyper::text_map::TextMap;
use actr_hyper::time::Interval;
use actr_hyper::wasm::host::{HookEntry, WasmWorkloadKind};
use actr_hyper::wasm::wit::{
    actr_error_to_wit, discover_answer, forward_host_operation, get_caller_id, get_request_id,
    get_self_id, hook_call, log_level, proto_actr_id_to_wit, proto_data_chunk_to_wit,
    rpc_envelope_to_wit, system_time_to_wit, wit_actr_error_to_proto, wit_actr_id_to_proto,
    wit_data_chunk_to_proto, wit_dest_to_v1, wit_payload_type_to_proto, GuestLogLevel,
    HookArgument, WitActrError, WitDest, WitPayloadType, WitTimestamp, WitWebrtcPeerStatus,
};
use actr_hyper::workload::{AbiCodes, HostOperationResult};
use bytes::Bytes;

fn id(serial: u64) -> ActrId {
    ActrId {
        realm: Realm { realm_id: 1 },
        serial_number: serial,
        actr_type: ActrType {
            manufacturer: "test".to_string(),
            name: "UnitTestActor".to_string(),
            version: "0.0.1".to_string(),
        },
    }
}

const CODES: AbiCodes = AbiCodes {
    success: 0,
    generic_error: -1,
    init_failed: -2,
    handle_failed: -3,
    alloc_failed: -4,
    protocol_error: -5,
    buffer_too_small: -6,
    unsupported_op: -7,
};

#[test]
fn identities_cross_the_boundary_unchanged() {
    let original = id(0xabc);
    let back = wit_actr_id_to_proto(&proto_actr_id_to_wit(&original));
    assert_eq!(back, original);
    assert_eq!(back.to_string_repr(), "abc@1/test:UnitTestActor:0.0.1");
}

#[test]
fn every_error_crosses_the_boundary_unchanged() {
    for error in [
        ActrError::Unavailable("a".into()),
        ActrError::ConnectionNotReady {
            retry_after_ms: Some(250),
        },
        ActrError::ConnectionNotReady {
            retry_after_ms: None,
        },
        ActrError::TimedOut,
        ActrError::NotFound("b".into()),
        ActrError::PermissionDenied("c".into()),
        ActrError::InvalidArgument("d".into()),
        ActrError::UnknownRoute("e".into()),
        ActrError::DependencyNotFound {
            service_name: "svc".into(),
            message: "f".into(),
        },
        ActrError::DecodeFailure("g".into()),
        ActrError::NotImplemented("h".into()),
        ActrError::Internal("i".into()),
    ] {
        assert_eq!(wit_actr_error_to_proto(actr_error_to_wit(&error)), error);
        assert_eq!(error.duplicate(), error);
    }
}

#[test]
fn chunks_cross_the_boundary_unchanged() {
    let chunk = DataChunk {
        stream_id: "s".into(),
        sequence: 9,
        payload: Bytes::from_static(b"bytes"),
        metadata: vec![
            MetadataEntry {
                key: "k1".into(),
                value: "v1".into(),
            },
            MetadataEntry {
                key: "k2".into(),
                value: "v2".into(),
            },
        ],
        timestamp_ms: Some(-5),
    };
    let crossed = proto_data_chunk_to_wit(chunk);
    assert_eq!(crossed.payload, b"bytes".to_vec());
    let back = wit_data_chunk_to_proto(crossed);
    assert_eq!(back.stream_id, "s");
    assert_eq!(back.sequence, 9);
    assert_eq!(back.payload, Bytes::from_static(b"bytes"));
    assert_eq!(back.metadata.len(), 2);
    assert_eq!(back.metadata[1].key, "k2");
    assert_eq!(back.metadata[1].value, "v2");
    assert_eq!(back.timestamp_ms, Some(-5));
}

#[test]
fn a_missing_payload_becomes_an_empty_one() {
    let mut envelope = RpcEnvelope {
        request_id: "r1".into(),
        route_key: "echo".into(),
        payload: None,
    };
    let crossed = rpc_envelope_to_wit(&envelope);
    assert_eq!((crossed.request_id.as_str(), crossed.route_key.as_str()), ("r1", "echo"));
    assert!(crossed.payload.is_empty());
    envelope.payload = Some(Bytes::from_static(b"hello"));
    assert_eq!(rpc_envelope_to_wit(&envelope).payload, b"hello".to_vec());
}

#[test]
fn destinations_and_payload_types_cross() {
    assert!(matches!(wit_dest_to_v1(&WitDest::Host), Dest::Host));
    assert!(matches!(wit_dest_to_v1(&WitDest::Workload), Dest::Workload));
    let peer = WitDest::Peer(proto_actr_id_to_wit(&id(3)));
    assert!(matches!(wit_dest_to_v1(&peer), Dest::Peer(p) if p == id(3)));
    for (wit, proto) in [
        (WitPayloadType::RpcReliable, PayloadType::RpcReliable),
        (WitPayloadType::RpcSignal, PayloadType::RpcSignal),
        (WitPayloadType::StreamReliable, PayloadType::StreamReliable),
        (
            WitPayloadType::StreamLatencyFirst,
            PayloadType::StreamLatencyFirst,
        ),
        (WitPayloadType::MediaRtp, PayloadType::MediaRtp),
    ] {
        assert_eq!(wit_payload_type_to_proto(wit), proto);
    }
}

fn at(before_epoch: bool, millis: u64) -> WallTime {
    WallTime {
        before_epoch,
        distance: Interval::from_millis(millis),
    }
}

#[test]
fn times_before_the_epoch_become_the_epoch() {
    assert_eq!(
        system_time_to_wit(&at(false, 1_500)),
        WitTimestamp {
            seconds: 1,
            nanoseconds: 500_000_000
        }
    );
    assert_eq!(
        system_time_to_wit(&at(true, 1_500)),
        WitTimestamp {
            seconds: 0,
            nanoseconds: 0
        }
    );
}

#[test]
fn host_calls_need_a_bridge() {
    for (world, text) in [
        (
            WasmWorkloadKind::V1Serial,
            "host ABI bridge not installed for this dispatch",
        ),
        (
            WasmWorkloadKind::V2Concurrent,
            "host ABI bridge not installed for this ctx-token (unknown or retired invocation)",
        ),
    ] {
        assert_eq!(
            forward_host_operation(world, None, &CODES).unwrap_err(),
            text
        );
    }
    let world = WasmWorkloadKind::V1Serial;
    let answer = forward_host_operation(world, Some(HostOperationResult::Bytes(vec![1])), &CODES);
    assert_eq!(answer.unwrap().unwrap(), vec![1]);
    let answer = forward_host_operation(world, Some(HostOperationResult::Done), &CODES);
    assert_eq!(answer.unwrap().unwrap(), Vec::<u8>::new());
    let answer = forward_host_operation(world, Some(HostOperationResult::Error(-7)), &CODES);
    assert!(matches!(
        answer.unwrap().unwrap_err(),
        WitActrError::NotImplemented(_)
    ));
}

#[test]
fn lookups_report_undecodable_answers() {
    assert_eq!(
        wit_actr_id_to_proto(&discover_answer(Ok(Ok(id(4)))).unwrap()),
        id(4)
    );
    match discover_answer(Ok(Err("truncated".into()))).unwrap_err() {
        WitActrError::DecodeFailure(t) => {
            assert_eq!(t, "host discover returned undecodable ActrId: truncated")
        }
        other => panic!("unexpected error {other:?}"),
    }
    assert!(matches!(
        discover_answer(Err(WitActrError::TimedOut)),
        Err(WitActrError::TimedOut)
    ));
}

#[test]
fn the_call_context_is_there_only_during_a_call() {
    let ctx = InvocationContext {
        self_id: id(1),
        caller_id: Some(id(2)),
        request_id: "req".into(),
    };
    assert_eq!(
        wit_actr_id_to_proto(&get_self_id(Some(&ctx)).unwrap()),
        id(1)
    );
    let caller = get_caller_id(Some(&ctx)).unwrap().unwrap();
    assert_eq!(wit_actr_id_to_proto(&caller), id(2));
    assert_eq!(get_request_id(Some(&ctx)).unwrap(), "req");
    let anonymous = InvocationContext {
        caller_id: None,
        ..ctx
    };
    assert!(get_caller_id(Some(&anonymous)).unwrap().is_none());
    assert!(get_self_id(None).unwrap_err().starts_with("get_self_id called outside"));
    assert!(get_caller_id(None).unwrap_err().starts_with("get_caller_id called outside"));
    assert!(get_request_id(None).unwrap_err().starts_with("get_request_id called outside"));
}

#[test]
fn guest_log_levels() {
    for (name, level) in [
        ("error", GuestLogLevel::Error),
        ("warn", GuestLogLevel::Warn),
        ("info", GuestLogLevel::Info),
        ("debug", GuestLogLevel::Debug),
        ("trace", GuestLogLevel::Trace),
        ("verbose", GuestLogLevel::Info),
    ] {
        assert_eq!(log_level(name), level);
    }
}

// ── hooks ────────────────────────────────────────────────────────────────────

#[test]
fn every_hook_calls_its_guest_function() {
    let peer = || PeerEvent {
        peer: id(5),
        relayed: Some(true),
        status: Some(WebRtcPeerStatus::Recovering),
    };
    let credential = || CredentialEvent {
        new_expiry: at(false, 2_000),
    };
    for (event, name) in [
        (PackageHookEvent::SignalingConnecting, "on_signaling_connecting"),
        (PackageHookEvent::SignalingConnected, "on_signaling_connected"),
        (PackageHookEvent::SignalingDisconnected, "on_signaling_disconnected"),
        (PackageHookEvent::WebSocketConnecting(peer()), "on_websocket_connecting"),
        (PackageHookEvent::WebSocketConnected(peer()), "on_websocket_connected"),
        (PackageHookEvent::WebSocketDisconnected(peer()), "on_websocket_disconnected"),
        (PackageHookEvent::WebRtcConnecting(peer()), "on_webrtc_connecting"),
        (PackageHookEvent::WebRtcConnected(peer()), "on_webrtc_connected"),
        (PackageHookEvent::WebRtcDisconnected(peer()), "on_webrtc_disconnected"),
        (PackageHookEvent::CredentialRenewed(credential()), "on_credential_renewed"),
        (PackageHookEvent::CredentialExpiring(credential()), "on_credential_expiring"),
        (
            PackageHookEvent::MailboxBackpressure(BackpressureEvent {
                queue_len: 9,
                threshold: 8,
            }),
            "on_mailbox_backpressure",
        ),
    ] {
        let call = hook_call(&event);
        assert_eq!(call.entry.export_name(), name);
        match call.argument {
            HookArgument::Nothing => assert!(name.starts_with("on_signaling")),
            HookArgument::Peer(p) => {
                assert_eq!(wit_actr_id_to_proto(&p.peer), id(5));
                assert_eq!(p.relayed, Some(true));
                assert_eq!(p.status, Some(WitWebrtcPeerStatus::Recovering));
            }
            HookArgument::Credential(c) => assert_eq!(c.new_expiry.seconds, 2),
            HookArgument::Backpressure(b) => assert_eq!((b.queue_len, b.threshold), (9, 8)),
        }
    }
}

#[test]
fn events_say_what_is_known_of_the_connection() {
    match PackageHookEvent::from(TestPackageHookEvent::WebSocketConnected { peer: id(6) }) {
        PackageHookEvent::WebSocketConnected(e) => {
            assert_eq!((e.peer, e.relayed, e.status), (id(6), None, None))
        }
        other => panic!("unexpected event {other:?}"),
    }
    match PackageHookEvent::from(TestPackageHookEvent::WebRtcConnecting { peer: id(6) }) {
        PackageHookEvent::WebRtcConnecting(e) => assert_eq!(
            (e.relayed, e.status),
            (None, Some(WebRtcPeerStatus::Connecting))
        ),
        other => panic!("unexpected event {other:?}"),
    }
    match PackageHookEvent::from(TestPackageHookEvent::WebRtcConnected {
        peer: id(6),
        relayed: false,
    }) {
        PackageHookEvent::WebRtcConnected(e) => assert_eq!(
            (e.relayed, e.status),
            (Some(false), Some(WebRtcPeerStatus::Connected))
        ),
        other => panic!("unexpected event {other:?}"),
    }
    match PackageHookEvent::from(TestPackageHookEvent::WebRtcDisconnected {
        peer: id(6),
        status: WebRtcPeerStatus::Idle,
    }) {
        PackageHookEvent::WebRtcDisconnected(e) => {
            assert_eq!((e.relayed, e.status), (None, Some(WebRtcPeerStatus::Idle)))
        }
        other => panic!("unexpected event {other:?}"),
    }
}

#[test]
fn observers_hand_events_to_the_runner() {
    let mut observer = TestWasmWorkload::new().into_package_hook_observer();
    let (event, submitted) = observer.call(TestPackageHookEvent::MailboxBackpressure {
        queue_len: 3,
        threshold: 2,
    });
    assert_eq!(event.entry(), HookEntry::MailboxBackpressure);
    assert_eq!(submitted, Submitted::Accepted);
    let instance = DynclibInstance::instantiate(Ok(0)).unwrap();
    let mut observer = TestDynclibWorkload::new(instance).into_package_hook_observer();
    let (event, submitted) = observer.call(TestPackageHookEvent::SignalingConnected);
    assert_eq!(event.entry(), HookEntry::SignalingConnected);
    assert_eq!(submitted, Submitted::Accepted);
}

// ── drivers ──────────────────────────────────────────────────────────────────

#[test]
fn dispatchers_number_requests_and_project_keys() {
    let spec = ConflictKeySpec::builder()
        .method("echo", KeySource::Sender)
        .build()
        .unwrap();
    let mut dispatcher =
        TestWasmWorkload::new().into_concurrent_dispatcher(spec.clone(), 4, 16, None);
    let caller = id(7);
    let first = dispatcher.dispatch("echo", b"x", Some(&caller));
    assert_eq!(first.request_id, "concurrent-req-0");
    assert!(matches!(first.key, ConflictKey::Scoped { .. }));
    assert!(matches!(first.submission, Submission::Admitted(started) if started == [0]));
    let again = dispatcher.dispatch("echo", b"x", Some(&caller));
    assert_eq!(again.request_id, "concurrent-req-1");
    assert!(matches!(again.submission, Submission::Admitted(started) if started.is_empty()));
    let barrier = dispatcher.dispatch("other", b"x", Some(&caller));
    assert_eq!(barrier.request_id, "concurrent-req-2");
    assert!(matches!(barrier.key, ConflictKey::Serial));
    assert!(matches!(barrier.submission, Submission::Admitted(started) if started.is_empty()));
    // The barrier goes before the second request on the same key.
    assert_eq!(dispatcher.complete(&first.key).started, [2]);
    assert!(dispatcher.shutdown().is_empty());
    let late = dispatcher.dispatch("echo", b"x", Some(&caller));
    assert!(matches!(late.submission, Submission::Refused(ActrError::Unavailable(_))));
    assert_eq!(dispatcher.complete(&barrier.key).started, [1]);

    let mut native = TestNativeConcurrentDispatcher::spawn(spec, 1, 1, None);
    let first = native.dispatch("echo", b"x", None);
    assert_eq!(first.request_id, "native-concurrent-req-0");
    assert!(matches!(&first.key, ConflictKey::Scoped { value, .. } if value.is_empty()));
    let second = native.dispatch("echo", b"x", Some(&caller));
    assert!(matches!(second.submission, Submission::Waiting));
    let turn = native.complete(&first.key);
    assert_eq!((turn.admitted, turn.started), (Some(1), vec![1]));

    let mut serial = TestWasmWorkload::new().into_serial_dispatcher();
    assert_eq!(serial.number_request(), "serial-req-0");
    assert_eq!(serial.number_request(), "serial-req-1");
    let mut native = TestNativeSerialDispatcher::spawn();
    assert_eq!(native.number_request(), "native-serial-req-0");
}

#[test]
fn workload_drivers_start_idle() {
    assert_eq!(TestWasmWorkload::new().rebuild_count(), 0);
    let (_workload, runner) = TestWasmWorkload::new().into_workload_runner().into_parts();
    assert_eq!(runner.running_len(), 0);
    let timeout = Some(Interval::from_millis(20));
    let (_workload, runner) = TestWasmWorkload::new()
        .into_interleaved_runner(timeout)
        .into_parts();
    assert!(!runner.is_terminated());
}

#[test]
fn duplicate_requests_wait_for_the_first_result() {
    let waiter = TestDedupWaiter::new();
    let mut waiter = match waiter.wait(false) {
        Err(waiter) => waiter,
        Ok(other) => panic!("nothing is known yet, got {other:?}"),
    };
    waiter.changed(Ok(vec![1]));
    assert!(matches!(waiter.wait(true), Ok(Ok(bytes)) if bytes == vec![1]));
    match TestDedupWaiter::new().wait(true) {
        Ok(Err(ActrError::Unavailable(t))) => {
            assert_eq!(t, "duplicate request result unavailable")
        }
        other => panic!("unexpected {other:?}"),
    }
    assert_eq!(
        TestDedupWaiter::new().wait_timeout(250).unwrap_err(),
        ActrError::Unavailable("duplicate request in-flight timed out after 250ms".into())
    );
}

#[test]
fn text_maps_hold_one_value_per_key() {
    let mut map: TextMap<u64> = TextMap::new();
    map.insert("a", 1);
    map.insert("b", 2);
    map.insert("a", 3);
    assert_eq!(map.get("a"), Some(&3));
    assert_eq!(map.get("c"), None);
    map.remove("a");
    assert_eq!(map.get("a"), None);
    assert_eq!(map.get("b"), Some(&2));
    map.clear();
    assert_eq!(map.get("b"), None);
}
