//! Operations that guests ask of their host.
use crate::protocol::{ActrError, ActrErrorView};
use crate::text;
use crate::text::{cat, signed_decimal};
use vstd::prelude::*;
use vstd::string::*;

verus! {

/// Result of a host operation.
#[derive(Debug)]
pub enum HostOperationResult {
    /// The operation answered with bytes.
    Bytes(Vec<u8>),
    /// The operation is done and has no answer.
    Done,
    /// The operation failed with a status code.
    Error(i32),
}

/// Status codes of the guest ABI.
#[derive(Debug, Clone, Copy, PartialEq, Eq, Structural)]
pub struct AbiCodes {
    pub success: i32,
    pub generic_error: i32,
    pub init_failed: i32,
    pub handle_failed: i32,
    pub alloc_failed: i32,
    pub protocol_error: i32,
    pub buffer_too_small: i32,
    pub unsupported_op: i32,
}

/// Operation numbers of the guest ABI.
#[derive(Debug, Clone, Copy, PartialEq, Eq, Structural)]
pub struct AbiOps {
    /// The version that frames carry.
    pub version: u32,
    pub host_call: u32,
    pub host_tell: u32,
    pub host_call_raw: u32,
    pub host_discover: u32,
    pub host_register_stream: u32,
    pub host_unregister_stream: u32,
    pub host_send_data_stream: u32,
}

/// A request frame of the guest ABI.
#[derive(Debug)]
pub struct AbiFrame {
    pub abi_version: u32,
    pub op: u32,
    pub payload: Vec<u8>,
}

/// A reply frame of the guest ABI.
#[derive(Debug)]
pub struct AbiReply {
    pub abi_version: u32,
    pub status: i32,
    pub payload: Vec<u8>,
}

/// What a guest asks of its host.
#[derive(Debug, Clone, Copy, PartialEq, Eq, Structural)]
pub enum HostOperation {
    Call,
    Tell,
    CallRaw,
    Discover,
    RegisterStream,
    UnregisterStream,
    SendDataStream,
}

/// The operation that a number stands for, the earlier ones first.
pub open spec fn operation_of(op: u32, ops: AbiOps) -> Option<HostOperation> {
    if op == ops.host_call {
        Some(HostOperation::Call)
    } else if op == ops.host_tell {
        Some(HostOperation::Tell)
    } else if op == ops.host_call_raw {
        Some(HostOperation::CallRaw)
    } else if op == ops.host_discover {
        Some(HostOperation::Discover)
    } else if op == ops.host_register_stream {
        Some(HostOperation::RegisterStream)
    } else if op == ops.host_unregister_stream {
        Some(HostOperation::UnregisterStream)
    } else if op == ops.host_send_data_stream {
        Some(HostOperation::SendDataStream)
    } else {
        None
    }
}

fn known_operation(op: u32, ops: &AbiOps) -> (r: Option<HostOperation>)
    ensures
        r == operation_of(op, *ops),
{
    if op == ops.host_call {
        Some(HostOperation::Call)
    } else if op == ops.host_tell {
        Some(HostOperation::Tell)
    } else if op == ops.host_call_raw {
        Some(HostOperation::CallRaw)
    } else if op == ops.host_discover {
        Some(HostOperation::Discover)
    } else if op == ops.host_register_stream {
        Some(HostOperation::RegisterStream)
    } else if op == ops.host_unregister_stream {
        Some(HostOperation::UnregisterStream)
    } else if op == ops.host_send_data_stream {
        Some(HostOperation::SendDataStream)
    } else {
        None
    }
}

/// Decode a request frame: a frame of another version is a protocol error, an
/// unknown operation is unsupported, and the payload is read by `decode`, whose
/// own failure passes through.
pub fn decode_host_operation<T, F: Fn(HostOperation, &Vec<u8>) -> Result<T, i32>>(
    frame: &AbiFrame,
    ops: &AbiOps,
    codes: &AbiCodes,
    decode: F,
) -> (r: Result<(HostOperation, T), i32>)
    requires
        forall|op: HostOperation| #[trigger] call_requires(decode, (op, &frame.payload)),
    ensures
        if frame.abi_version != ops.version {
            r == Err::<(HostOperation, T), i32>(codes.protocol_error)
        } else {
            match operation_of(frame.op, *ops) {
                None => r == Err::<(HostOperation, T), i32>(codes.unsupported_op),
                Some(op) => match r {
                    Ok((found, payload)) => found == op && call_ensures(
                        decode,
                        (op, &frame.payload),
                        Ok::<T, i32>(payload),
                    ),
                    Err(code) => call_ensures(decode, (op, &frame.payload), Err::<T, i32>(code)),
                },
            }
        },
{
    if frame.abi_version != ops.version {
        return Err(codes.protocol_error);
    }
    match known_operation(frame.op, ops) {
        None => Err(codes.unsupported_op),
        Some(op) => {
            assert(call_requires(decode, (op, &frame.payload)));
            match decode(op, &frame.payload) {
                Ok(payload) => Ok((op, payload)),
                Err(code) => Err(code),
            }
        },
    }
}

/// The reply frame for the result of a host operation.
pub fn operation_reply(result: HostOperationResult, ops: &AbiOps, codes: &AbiCodes) -> (r: AbiReply)
    ensures
        r.abi_version == ops.version,
        match result {
            HostOperationResult::Bytes(bytes) => r.status == codes.success && r.payload == bytes,
            HostOperationResult::Done => r.status == codes.success && r.payload@.len() == 0,
            HostOperationResult::Error(code) => r.status == code && r.payload@.len() == 0,
        },
{
    match result {
        HostOperationResult::Bytes(bytes) => AbiReply {
            abi_version: ops.version,
            status: codes.success,
            payload: bytes,
        },
        HostOperationResult::Done => AbiReply {
            abi_version: ops.version,
            status: codes.success,
            payload: Vec::new(),
        },
        HostOperationResult::Error(code) => AbiReply {
            abi_version: ops.version,
            status: code,
            payload: Vec::new(),
        },
    }
}

/// The error that a guest sees for a status code, the earlier ones first.
pub open spec fn status_error(code: i32, codes: AbiCodes) -> ActrErrorView {
    if code == codes.generic_error {
        ActrErrorView::Internal("generic ABI error"@)
    } else if code == codes.init_failed {
        ActrErrorView::Internal("init failed"@)
    } else if code == codes.handle_failed {
        ActrErrorView::Internal("handle failed"@)
    } else if code == codes.alloc_failed {
        ActrErrorView::Internal("allocation failed"@)
    } else if code == codes.protocol_error {
        ActrErrorView::DecodeFailure("protocol error"@)
    } else if code == codes.buffer_too_small {
        ActrErrorView::Internal("reply buffer too small"@)
    } else if code == codes.unsupported_op {
        ActrErrorView::NotImplemented("unsupported ABI operation"@)
    } else {
        ActrErrorView::Internal("ABI status "@ + text::signed_text(code as int))
    }
}

/// The error that a guest sees for a status code.
pub fn actr_error_from_abi_code(code: i32, codes: &AbiCodes) -> (r: ActrError)
    ensures
        r@ == status_error(code, *codes),
{
    if code == codes.generic_error {
        ActrError::Internal("generic ABI error".to_owned())
    } else if code == codes.init_failed {
        ActrError::Internal("init failed".to_owned())
    } else if code == codes.handle_failed {
        ActrError::Internal("handle failed".to_owned())
    } else if code == codes.alloc_failed {
        ActrError::Internal("allocation failed".to_owned())
    } else if code == codes.protocol_error {
        ActrError::DecodeFailure("protocol error".to_owned())
    } else if code == codes.buffer_too_small {
        ActrError::Internal("reply buffer too small".to_owned())
    } else if code == codes.unsupported_op {
        ActrError::NotImplemented("unsupported ABI operation".to_owned())
    } else {
        let shown: String = signed_decimal(code as i64);
        ActrError::Internal(cat("ABI status ", shown.as_str()))
    }
}

/// What a guest gets for a host operation that it asked for.
pub fn guest_answer(result: HostOperationResult, codes: &AbiCodes) -> (r: Result<
    Vec<u8>,
    ActrError,
>)
    ensures
        match result {
            HostOperationResult::Bytes(bytes) => r == Ok::<Vec<u8>, ActrError>(bytes),
            HostOperationResult::Done => r matches Ok(bytes) && bytes@.len() == 0,
            HostOperationResult::Error(code) => r matches Err(e) && e@ == status_error(
                code,
                *codes,
            ),
        },
{
    match result {
        HostOperationResult::Bytes(bytes) => Ok(bytes),
        HostOperationResult::Done => Ok(Vec::new()),
        HostOperationResult::Error(code) => Err(actr_error_from_abi_code(code, codes)),
    }
}

/// Which backend runs a workload.
#[derive(Debug, Clone, Copy, PartialEq, Eq, Structural)]
pub enum Backend {
    /// A workload in this process.
    Linked,
    /// A sandboxed component.
    Wasm,
    /// A native shared library.
    DynClib,
}

/// The result that a caller of a dispatch sees. A linked workload's own result
/// passes through; a backend's failure is wrapped.
pub fn dispatch_result(backend: Backend, outcome: Result<Vec<u8>, ActrError>, shown: &str) -> (r:
    Result<Vec<u8>, ActrError>)
    ensures
        match outcome {
            Ok(bytes) => r == Ok::<Vec<u8>, ActrError>(bytes),
            Err(error) => if backend == Backend::Linked {
                r == Err::<Vec<u8>, ActrError>(error)
            } else {
                r matches Err(e) && e@ == ActrErrorView::Internal(
                    "workload dispatch failed: "@ + shown@,
                )
            },
        },
{
    match outcome {
        Ok(bytes) => Ok(bytes),
        Err(error) => if backend == Backend::Linked {
            Err(error)
        } else {
            Err(ActrError::Internal(cat("workload dispatch failed: ", shown)))
        },
    }
}

/// The result that a caller of a stream dispatch sees. Linked workloads register
/// their stream callbacks elsewhere; a backend's failure, given by its text, is
/// wrapped.
pub fn stream_result(backend: Backend, failure: Option<&str>) -> (r: Result<(), ActrError>)
    ensures
        if backend == Backend::Linked {
            r matches Err(e) && e@ == ActrErrorView::NotImplemented(
                "linked workload stream callbacks are registered directly on RuntimeContext"@,
            )
        } else {
            match failure {
                None => r is Ok,
                Some(t) => r matches Err(e) && e@ == ActrErrorView::Internal(
                    "workload stream dispatch failed: "@ + t@,
                ),
            }
        },
{
    if backend == Backend::Linked {
        return Err(
            ActrError::NotImplemented(
                "linked workload stream callbacks are registered directly on RuntimeContext".to_owned(),
            ),
        );
    }
    match failure {
        None => Ok(()),
        Some(t) => Err(ActrError::Internal(cat("workload stream dispatch failed: ", t))),
    }
}

/// The result of dispatching to a linked workload that offers no dispatcher.
pub fn undispatchable() -> (r: ActrError)
    ensures
        r@ == ActrErrorView::NotImplemented("linked workload handle has no dispatcher bound"@),
{
    ActrError::NotImplemented("linked workload handle has no dispatcher bound".to_owned())
}

// ── laws ─────────────────────────────────────────────────────────────────────

/// Where the operations have numbers of their own, each number stands for its operation,
/// and any other number for none.
pub proof fn operation_numbers_stand_for_operations(op: u32, ops: AbiOps)
    requires
        ({
            let all = seq![
                ops.host_call,
                ops.host_tell,
                ops.host_call_raw,
                ops.host_discover,
                ops.host_register_stream,
                ops.host_unregister_stream,
                ops.host_send_data_stream,
            ];
            forall|i: int, j: int| 0 <= i < j < 7 ==> #[trigger] all[i] != #[trigger] all[j]
        }),
    ensures
        operation_of(op, ops) == Some(HostOperation::Call) <==> op == ops.host_call,
        operation_of(op, ops) == Some(HostOperation::Tell) <==> op == ops.host_tell,
        operation_of(op, ops) == Some(HostOperation::CallRaw) <==> op == ops.host_call_raw,
        operation_of(op, ops) == Some(HostOperation::Discover) <==> op == ops.host_discover,
        operation_of(op, ops) == Some(HostOperation::RegisterStream) <==> op
            == ops.host_register_stream,
        operation_of(op, ops) == Some(HostOperation::UnregisterStream) <==> op
            == ops.host_unregister_stream,
        operation_of(op, ops) == Some(HostOperation::SendDataStream) <==> op
            == ops.host_send_data_stream,
        operation_of(op, ops) is None <==> op != ops.host_call && op != ops.host_tell && op
            != ops.host_call_raw && op != ops.host_discover && op != ops.host_register_stream && op
            != ops.host_unregister_stream && op != ops.host_send_data_stream,
{
    let all = seq![
        ops.host_call,
        ops.host_tell,
        ops.host_call_raw,
        ops.host_discover,
        ops.host_register_stream,
        ops.host_unregister_stream,
        ops.host_send_data_stream,
    ];
    assert(all[0] == ops.host_call);
    assert(all[1] == ops.host_tell);
    assert(all[2] == ops.host_call_raw);
    assert(all[3] == ops.host_discover);
    assert(all[4] == ops.host_register_stream);
    assert(all[5] == ops.host_unregister_stream);
    assert(all[6] == ops.host_send_data_stream);
}

/// A failed host operation never reaches the guest as something to retry: a protocol error
/// is corrupt data, every other status a fault inside the framework, and a status that has
/// no name of its own is told by its number.
pub proof fn failed_operations_are_never_retried(code: i32, codes: AbiCodes)
    requires
        codes.protocol_error != codes.generic_error,
        codes.protocol_error != codes.init_failed,
        codes.protocol_error != codes.handle_failed,
        codes.protocol_error != codes.alloc_failed,
    ensures
        status_error(code, codes).kind() == crate::protocol::ErrorKind::Corrupt <==> code
            == codes.protocol_error,
        code != codes.protocol_error ==> status_error(code, codes).kind()
            == crate::protocol::ErrorKind::Internal,
        status_error(code, codes) is NotImplemented ==> code == codes.unsupported_op,
        code != codes.generic_error && code != codes.init_failed && code != codes.handle_failed
            && code != codes.alloc_failed && code != codes.protocol_error && code
            != codes.buffer_too_small && code == codes.unsupported_op ==> status_error(code, codes)
            is NotImplemented,
        code != codes.generic_error && code != codes.init_failed && code != codes.handle_failed
            && code != codes.alloc_failed && code != codes.protocol_error && code
            != codes.buffer_too_small && code != codes.unsupported_op ==> (status_error(code, codes)
            matches ActrErrorView::Internal(t) && text::signed_text(code as int).is_suffix_of(t)),
{
    let shown = text::signed_text(code as int);
    let t = "ABI status "@ + shown;
    assert(t.subrange(t.len() - shown.len(), t.len() as int) =~= shown);
}

} // verus!
