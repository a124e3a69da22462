//! Shared-library workloads and the guest ABI.

use actr_hyper::dynclib::{
    begin_invoke, stop_result, trampoline_reply, BridgeRegistry, DynclibError, DynclibInstance,
    GuestReturn, GuestRuntime, RequestKind, SymbolResolution,
};
use actr_hyper::lifecycle::LifecyclePhase;
use actr_hyper::protocol::ActrError;
use actr_hyper::workload::{
    actr_error_from_abi_code, decode_host_operation, dispatch_result, guest_answer, stream_result,
    undispatchable, AbiCodes, AbiFrame, AbiOps, AbiReply, Backend, HostOperation,
    HostOperationResult,
};

const CODES: AbiCodes = AbiCodes {
    success: 0,
    generic_error: -1,
    init_failed: -2,
    handle_failed: -3,
    alloc_failed: -4,
    protocol_error: -5,
    buffer_too_small: -6,
    unsupported_op: -7,
};

const OPS: AbiOps = AbiOps {
    version: 1,
    host_call: 10,
    host_tell: 11,
    host_call_raw: 12,
    host_discover: 13,
    host_register_stream: 14,
    host_unregister_stream: 15,
    host_send_data_stream: 16,
};

fn frame(op: u32, payload: &[u8]) -> AbiFrame {
    AbiFrame {
        abi_version: 1,
        op,
        payload: payload.to_vec(),
    }
}

fn payload_len(_op: HostOperation, payload: &Vec<u8>) -> Result<usize, i32> {
    if payload.is_empty() {
        Err(-5)
    } else {
        Ok(payload.len())
    }
}

#[test]
fn every_operation_number_is_recognised() {
    for (op, expected) in [
        (10, HostOperation::Call),
        (11, HostOperation::Tell),
        (12, HostOperation::CallRaw),
        (13, HostOperation::Discover),
        (14, HostOperation::RegisterStream),
        (15, HostOperation::UnregisterStream),
        (16, HostOperation::SendDataStream),
    ] {
        assert_eq!(
            decode_host_operation(&frame(op, b"abc"), &OPS, &CODES, payload_len),
            Ok((expected, 3))
        );
    }
}

#[test]
fn bad_frames_are_refused() {
    let mut other_version = frame(10, b"abc");
    other_version.abi_version = 2;
    assert_eq!(
        decode_host_operation(&other_version, &OPS, &CODES, payload_len),
        Err(CODES.protocol_error)
    );
    assert_eq!(
        decode_host_operation(&frame(99, b"abc"), &OPS, &CODES, payload_len),
        Err(CODES.unsupported_op)
    );
    // The payload's own failure passes through.
    assert_eq!(
        decode_host_operation(&frame(10, b""), &OPS, &CODES, payload_len),
        Err(-5)
    );
}

#[test]
fn an_invocation_without_a_place_for_the_answer_is_a_protocol_error() {
    assert_eq!(
        begin_invoke(false, Ok(frame(10, b"abc")), &OPS, &CODES, payload_len),
        Err(CODES.protocol_error)
    );
    assert_eq!(
        begin_invoke(true, Err(-42), &OPS, &CODES, payload_len),
        Err(-42)
    );
    assert_eq!(
        begin_invoke(true, Ok(frame(12, b"ab")), &OPS, &CODES, payload_len),
        Ok((HostOperation::CallRaw, 2))
    );
}

#[test]
fn status_codes_have_texts() {
    let shown = |code: i32| actr_error_from_abi_code(code, &CODES);
    assert_eq!(shown(-1), ActrError::Internal("generic ABI error".to_string()));
    assert_eq!(shown(-2), ActrError::Internal("init failed".to_string()));
    assert_eq!(shown(-3), ActrError::Internal("handle failed".to_string()));
    assert_eq!(shown(-4), ActrError::Internal("allocation failed".to_string()));
    assert_eq!(
        shown(-5),
        ActrError::DecodeFailure("protocol error".to_string())
    );
    assert_eq!(
        shown(-6),
        ActrError::Internal("reply buffer too small".to_string())
    );
    assert_eq!(
        shown(-7),
        ActrError::NotImplemented("unsupported ABI operation".to_string())
    );
    assert_eq!(shown(-123), ActrError::Internal("ABI status -123".to_string()));
    assert_eq!(shown(7), ActrError::Internal("ABI status 7".to_string()));
}

#[test]
fn guests_get_bytes_or_errors() {
    assert_eq!(
        guest_answer(HostOperationResult::Bytes(vec![1, 2]), &CODES),
        Ok(vec![1, 2])
    );
    assert_eq!(guest_answer(HostOperationResult::Done, &CODES), Ok(vec![]));
    assert!(matches!(
        guest_answer(HostOperationResult::Error(-5), &CODES),
        Err(ActrError::DecodeFailure(_))
    ));
}

#[test]
fn dispatch_failures_are_wrapped_except_for_linked_workloads() {
    let inner = ActrError::InvalidArgument("unknown route: x".to_string());
    assert_eq!(
        dispatch_result(Backend::Linked, Err(inner.clone()), "shown"),
        Err(inner.clone())
    );
    assert_eq!(
        dispatch_result(Backend::Wasm, Err(inner), "shown"),
        Err(ActrError::Internal(
            "workload dispatch failed: shown".to_string()
        ))
    );
    assert_eq!(
        dispatch_result(Backend::DynClib, Ok(vec![9]), ""),
        Ok(vec![9])
    );
    assert!(matches!(
        stream_result(Backend::Linked, None),
        Err(ActrError::NotImplemented(_))
    ));
    assert_eq!(stream_result(Backend::Wasm, None), Ok(()));
    assert_eq!(
        stream_result(Backend::DynClib, Some("gone")),
        Err(ActrError::Internal(
            "workload stream dispatch failed: gone".to_string()
        ))
    );
    assert!(matches!(undispatchable(), ActrError::NotImplemented(_)));
}

// ── bridges ──────────────────────────────────────────────────────────────────

#[test]
fn bridges_live_as_long_as_somebody_holds_them() {
    let mut bridges = BridgeRegistry::new();
    let first = bridges.register_bridge();
    let second = bridges.register_bridge();
    assert_eq!((first, second), (1, 2));
    assert_eq!(bridges.active_bridge_count(), 2);
    assert!(bridges.retain_bridge(first));
    bridges.release_bridge(first);
    assert!(bridges.is_live(first));
    bridges.release_bridge(first);
    assert!(!bridges.is_live(first));
    assert!(bridges.is_live(second));
    assert!(!bridges.retain_bridge(first));
    bridges.release_bridge(first);
    assert_eq!(bridges.active_bridge_count(), 1);
    assert_eq!(bridges.register_bridge(), 3);
}

#[test]
fn calls_through_a_dead_bridge_fail() {
    let mut bridges = BridgeRegistry::new();
    let token = bridges.register_bridge();
    let reply = trampoline_reply(
        &bridges,
        token,
        Some(HostOperationResult::Bytes(vec![5])),
        &OPS,
        &CODES,
    );
    assert_eq!((reply.abi_version, reply.status), (1, 0));
    assert_eq!(reply.payload, vec![5]);
    let reply = trampoline_reply(&bridges, token, None, &OPS, &CODES);
    assert_eq!(reply.status, CODES.generic_error);
    let reply = trampoline_reply(
        &bridges,
        99,
        Some(HostOperationResult::Done),
        &OPS,
        &CODES,
    );
    assert_eq!(reply.status, CODES.generic_error);
    let reply = trampoline_reply(
        &bridges,
        token,
        Some(HostOperationResult::Error(-3)),
        &OPS,
        &CODES,
    );
    assert_eq!(reply.status, -3);
    assert!(reply.payload.is_empty());
}

// ── loading and requests ─────────────────────────────────────────────────────

#[test]
fn symbols_are_resolved_in_order() {
    let mut run = SymbolResolution::begin("/lib/a.so", Ok(())).unwrap();
    for symbol in [
        "actr_init",
        "actr_handle",
        "actr_free_response",
        "actr_shutdown",
    ] {
        assert_eq!(run.wanted(), Some(symbol));
        run.found(Ok(())).unwrap();
    }
    assert_eq!(run.wanted(), None);
}

#[test]
fn load_failures_are_named() {
    assert_eq!(
        SymbolResolution::begin("/lib/a.so", Err("no such file".to_string())).unwrap_err(),
        DynclibError::LoadFailed("/lib/a.so: no such file".to_string())
    );
    let mut run = SymbolResolution::begin("/lib/a.so", Ok(())).unwrap();
    run.found(Ok(())).unwrap();
    assert_eq!(
        run.found(Err("undefined".to_string())).unwrap_err(),
        DynclibError::MissingSymbol {
            symbol: "actr_handle".to_string(),
            detail: "undefined".to_string()
        }
    );
}

#[test]
fn initialization_outcomes() {
    assert_eq!(
        DynclibInstance::instantiate(Err(-5)).unwrap_err(),
        DynclibError::DispatchFailed("init payload encode failed: -5".to_string())
    );
    assert_eq!(
        DynclibInstance::instantiate(Ok(3)).unwrap_err(),
        DynclibError::InitFailed(3)
    );
    assert!(DynclibInstance::instantiate(Ok(0)).unwrap().needs_shutdown());
}

fn reply(status: i32, payload: &[u8]) -> Result<AbiReply, i32> {
    Ok(AbiReply {
        abi_version: 1,
        status,
        payload: payload.to_vec(),
    })
}

#[test]
fn answers_of_the_guest() {
    let instance = DynclibInstance::instantiate(Ok(0)).unwrap();
    let finish = |outcome: GuestReturn| instance.finish_request(outcome, &CODES);
    let failed = |t: &str| Err(DynclibError::DispatchFailed(t.to_string()));
    assert_eq!(
        finish(GuestReturn::Returned(0, reply(0, b"ok"))),
        Ok(b"ok".to_vec())
    );
    assert_eq!(
        finish(GuestReturn::Returned(0, reply(-3, b"guest said no"))),
        failed("guest said no")
    );
    assert_eq!(
        finish(GuestReturn::Returned(0, reply(-3, &[0xff]))),
        failed("guest returned status -3")
    );
    assert_eq!(
        finish(GuestReturn::Returned(4, reply(0, b"ok"))),
        failed("actr_handle returned error code 4")
    );
    assert_eq!(
        finish(GuestReturn::Returned(0, Err(-5))),
        failed("guest returned malformed AbiReply with code -5")
    );
    assert_eq!(
        finish(GuestReturn::Panicked("boom".to_string())),
        failed("spawn_blocking panicked: boom")
    );
}

#[test]
fn encoding_failures_name_the_request() {
    let instance = DynclibInstance::instantiate(Ok(0)).unwrap();
    for (kind, heading) in [
        (RequestKind::Handle, "guest handle frame"),
        (RequestKind::DataChunk, "guest data stream frame"),
        (
            RequestKind::Lifecycle(LifecyclePhase::OnStart),
            "guest lifecycle frame",
        ),
        (RequestKind::Hook, "guest hook frame"),
    ] {
        assert_eq!(
            instance.begin_request(kind, Err(-1)).unwrap_err(),
            DynclibError::DispatchFailed(format!("{heading} serialization failed: -1"))
        );
        assert!(instance.begin_request(kind, Ok(())).is_ok());
    }
}

#[test]
fn shutdown_is_final_once_it_succeeds() {
    let mut instance = DynclibInstance::instantiate(Ok(0)).unwrap();
    assert_eq!(
        instance
            .shutdown_returned(Err("x".to_string()), &CODES)
            .unwrap_err(),
        DynclibError::DispatchFailed("actr_shutdown panicked: x".to_string())
    );
    assert_eq!(
        instance.shutdown_returned(Ok(-1), &CODES).unwrap_err(),
        DynclibError::DispatchFailed("actr_shutdown returned error code -1".to_string())
    );
    assert!(instance.needs_shutdown());
    instance.shutdown_returned(Ok(0), &CODES).unwrap();
    assert!(!instance.needs_shutdown());
    assert_eq!(
        instance
            .begin_request(RequestKind::Handle, Ok(()))
            .unwrap_err(),
        DynclibError::DispatchFailed("dynclib instance is shut down".to_string())
    );
}

#[test]
fn stopping_reports_the_hook_first() {
    let hook = || Err(DynclibError::DispatchFailed("hook".to_string()));
    let down = || Err(DynclibError::DispatchFailed("down".to_string()));
    assert_eq!(stop_result(hook(), down()), hook());
    assert_eq!(stop_result(hook(), Ok(())), hook());
    assert_eq!(stop_result(Ok(()), down()), down());
    assert_eq!(stop_result(Ok(()), Ok(())), Ok(()));
}

// ── the runtime inside an image ──────────────────────────────────────────────

#[test]
fn guest_runtime_life_cycle() {
    let mut rt = GuestRuntime::new();
    let internal = |t: &str| Err(ActrError::Internal(t.to_string()));
    assert_eq!(
        rt.enter(),
        internal("dynclib Tokio runtime is not initialized")
    );
    assert!(rt.spawn(1, &vec![]).is_err());
    assert!(rt.shutdown().is_err());
    assert_eq!(
        rt.initialize(Err("no threads".to_string())),
        internal("failed to initialize dynclib Tokio runtime: no threads")
    );
    assert_eq!(rt.initialize(Ok(())), Ok(()));
    assert_eq!(
        rt.initialize(Ok(())),
        internal("dynclib Tokio runtime is already initialized")
    );
    assert_eq!(rt.enter(), Ok(()));
    assert_eq!(rt.spawn(1, &vec![]), Ok(()));
    assert_eq!(rt.spawn(2, &vec![]), Ok(()));
    assert_eq!(rt.spawn(3, &vec![1]), Ok(()));
    assert_eq!(rt.shutdown(), Ok(vec![2, 3]));
    assert_eq!(rt.shutdown(), Ok(vec![]));
    assert_eq!(rt.enter(), internal("dynclib Tokio runtime is shut down"));
    assert_eq!(
        rt.spawn(4, &vec![]),
        Err(ActrError::Unavailable(
            "dynclib workload is shutting down".to_string()
        ))
    );
}
