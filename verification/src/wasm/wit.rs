//! Values that cross the component boundary.
//!
//! The component interface has its own record types. Each has the same contents
//! as the host's type, and the conversions preserve them.
use crate::hooks::{
    BackpressureEvent, CredentialEvent, PackageHookEvent, PeerEvent, PeerEventView, WallTime,
    WebRtcPeerStatus,
};
use crate::message::{
    DataChunk, DataChunkView, Dest, DestView, InvocationContext, MetadataEntry, PayloadType,
    RpcEnvelope,
};
use crate::octets::{from_vec, to_vec};
use crate::protocol::{
    ActrError, ActrErrorView, ActrId, ActrIdView, ActrType, ActrTypeView, Realm,
};
use crate::text::{cat, same_text};
use crate::wasm::host::{HookEntry, WasmWorkloadKind};
use crate::workload;
use crate::workload::{guest_answer, AbiCodes, HostOperationResult};
use vstd::prelude::*;
use vstd::string::*;

verus! {

/// A realm in the component interface.
#[derive(Debug, Clone, Copy)]
pub struct WitRealm {
    pub realm_id: u32,
}

/// An actor type in the component interface.
#[derive(Debug)]
pub struct WitActrType {
    pub manufacturer: String,
    pub name: String,
    pub version: String,
}

/// An actor identity in the component interface.
#[derive(Debug)]
pub struct WitActrId {
    pub realm: WitRealm,
    pub serial_number: u64,
    pub type_: WitActrType,
}

impl View for WitActrType {
    type V = ActrTypeView;

    open spec fn view(&self) -> ActrTypeView {
        ActrTypeView {
            manufacturer: self.manufacturer@,
            name: self.name@,
            version: self.version@,
        }
    }
}

impl View for WitActrId {
    type V = ActrIdView;

    open spec fn view(&self) -> ActrIdView {
        ActrIdView {
            realm_id: self.realm.realm_id,
            serial_number: self.serial_number,
            actr_type: self.type_@,
        }
    }
}

/// A realm from the component interface.
pub fn wit_realm_to_proto(r: &WitRealm) -> (out: Realm)
    ensures
        out.realm_id == r.realm_id,
{
    Realm { realm_id: r.realm_id }
}

/// A realm for the component interface.
pub fn proto_realm_to_wit(r: &Realm) -> (out: WitRealm)
    ensures
        out.realm_id == r.realm_id,
{
    WitRealm { realm_id: r.realm_id }
}

/// An actor type from the component interface.
pub fn wit_actr_type_to_proto(t: &WitActrType) -> (r: ActrType)
    ensures
        r@ == t@,
{
    ActrType {
        manufacturer: t.manufacturer.clone(),
        name: t.name.clone(),
        version: t.version.clone(),
    }
}

/// An actor type for the component interface.
pub fn proto_actr_type_to_wit(t: &ActrType) -> (r: WitActrType)
    ensures
        r@ == t@,
{
    WitActrType {
        manufacturer: t.manufacturer.clone(),
        name: t.name.clone(),
        version: t.version.clone(),
    }
}

/// An actor identity from the component interface.
pub fn wit_actr_id_to_proto(id: &WitActrId) -> (r: ActrId)
    ensures
        r@ == id@,
{
    ActrId {
        realm: wit_realm_to_proto(&id.realm),
        serial_number: id.serial_number,
        actr_type: wit_actr_type_to_proto(&id.type_),
    }
}

/// An actor identity for the component interface.
pub fn proto_actr_id_to_wit(id: &ActrId) -> (r: WitActrId)
    ensures
        r@ == id@,
{
    WitActrId {
        realm: proto_realm_to_wit(&id.realm),
        serial_number: id.serial_number,
        type_: proto_actr_type_to_wit(&id.actr_type),
    }
}

/// A destination in the component interface.
#[derive(Debug)]
pub enum WitDest {
    Host,
    Workload,
    Peer(WitActrId),
}

impl View for WitDest {
    type V = DestView;

    open spec fn view(&self) -> DestView {
        match *self {
            WitDest::Host => DestView::Host,
            WitDest::Workload => DestView::Workload,
            WitDest::Peer(id) => DestView::Peer(id@),
        }
    }
}

/// A destination from the component interface.
pub fn wit_dest_to_v1(dest: &WitDest) -> (r: Dest)
    ensures
        r@ == dest@,
{
    match dest {
        WitDest::Host => Dest::Host,
        WitDest::Workload => Dest::Workload,
        WitDest::Peer(id) => Dest::Peer(wit_actr_id_to_proto(id)),
    }
}

/// Details of a connection that is not ready, in the component interface.
#[derive(Debug, Clone, Copy)]
pub struct WitConnectionNotReadyInfo {
    pub retry_after_ms: Option<u64>,
}

/// Details of a missing dependency, in the component interface.
#[derive(Debug)]
pub struct DependencyNotFoundPayload {
    pub service_name: String,
    pub message: String,
}

/// An error in the component interface.
#[derive(Debug)]
pub enum WitActrError {
    Unavailable(String),
    ConnectionNotReady(WitConnectionNotReadyInfo),
    TimedOut,
    NotFound(String),
    PermissionDenied(String),
    InvalidArgument(String),
    UnknownRoute(String),
    DependencyNotFound(DependencyNotFoundPayload),
    DecodeFailure(String),
    NotImplemented(String),
    Internal(String),
}

impl View for WitActrError {
    type V = ActrErrorView;

    open spec fn view(&self) -> ActrErrorView {
        match *self {
            WitActrError::Unavailable(m) => ActrErrorView::Unavailable(m@),
            WitActrError::ConnectionNotReady(info) => ActrErrorView::ConnectionNotReady {
                retry_after_ms: info.retry_after_ms,
            },
            WitActrError::TimedOut => ActrErrorView::TimedOut,
            WitActrError::NotFound(m) => ActrErrorView::NotFound(m@),
            WitActrError::PermissionDenied(m) => ActrErrorView::PermissionDenied(m@),
            WitActrError::InvalidArgument(m) => ActrErrorView::InvalidArgument(m@),
            WitActrError::UnknownRoute(m) => ActrErrorView::UnknownRoute(m@),
            WitActrError::DependencyNotFound(p) => ActrErrorView::DependencyNotFound {
                service_name: p.service_name@,
                message: p.message@,
            },
            WitActrError::DecodeFailure(m) => ActrErrorView::DecodeFailure(m@),
            WitActrError::NotImplemented(m) => ActrErrorView::NotImplemented(m@),
            WitActrError::Internal(m) => ActrErrorView::Internal(m@),
        }
    }
}

/// An error for the component interface.
pub fn actr_error_to_wit(e: &ActrError) -> (r: WitActrError)
    ensures
        r@ == e@,
{
    match e {
        ActrError::Unavailable(m) => WitActrError::Unavailable(m.clone()),
        ActrError::ConnectionNotReady { retry_after_ms } => WitActrError::ConnectionNotReady(
            WitConnectionNotReadyInfo { retry_after_ms: *retry_after_ms },
        ),
        ActrError::TimedOut => WitActrError::TimedOut,
        ActrError::NotFound(m) => WitActrError::NotFound(m.clone()),
        ActrError::PermissionDenied(m) => WitActrError::PermissionDenied(m.clone()),
        ActrError::InvalidArgument(m) => WitActrError::InvalidArgument(m.clone()),
        ActrError::UnknownRoute(m) => WitActrError::UnknownRoute(m.clone()),
        ActrError::DependencyNotFound { service_name, message } => {
            WitActrError::DependencyNotFound(
                DependencyNotFoundPayload {
                    service_name: service_name.clone(),
                    message: message.clone(),
                },
            )
        },
        ActrError::DecodeFailure(m) => WitActrError::DecodeFailure(m.clone()),
        ActrError::NotImplemented(m) => WitActrError::NotImplemented(m.clone()),
        ActrError::Internal(m) => WitActrError::Internal(m.clone()),
    }
}

/// An error from the component interface.
pub fn wit_actr_error_to_proto(e: WitActrError) -> (r: ActrError)
    ensures
        r@ == e@,
{
    match e {
        WitActrError::Unavailable(m) => ActrError::Unavailable(m),
        WitActrError::ConnectionNotReady(info) => ActrError::ConnectionNotReady {
            retry_after_ms: info.retry_after_ms,
        },
        WitActrError::TimedOut => ActrError::TimedOut,
        WitActrError::NotFound(m) => ActrError::NotFound(m),
        WitActrError::PermissionDenied(m) => ActrError::PermissionDenied(m),
        WitActrError::InvalidArgument(m) => ActrError::InvalidArgument(m),
        WitActrError::UnknownRoute(m) => ActrError::UnknownRoute(m),
        WitActrError::DependencyNotFound(p) => ActrError::DependencyNotFound {
            service_name: p.service_name,
            message: p.message,
        },
        WitActrError::DecodeFailure(m) => ActrError::DecodeFailure(m),
        WitActrError::NotImplemented(m) => ActrError::NotImplemented(m),
        WitActrError::Internal(m) => ActrError::Internal(m),
    }
}

/// A request in the component interface.
#[derive(Debug)]
pub struct WitRpcEnvelope {
    pub request_id: String,
    pub route_key: String,
    pub payload: Vec<u8>,
}

/// A request for the component interface; a missing payload becomes an empty
/// one.
pub fn rpc_envelope_to_wit(envelope: &RpcEnvelope) -> (r: WitRpcEnvelope)
    ensures
        r.request_id@ == envelope@.request_id,
        r.route_key@ == envelope@.route_key,
        r.payload@ == (match envelope@.payload {
            Some(bytes) => bytes,
            None => Seq::<u8>::empty(),
        }),
{
    let payload: Vec<u8> = match &envelope.payload {
        Some(b) => to_vec(b),
        None => Vec::new(),
    };
    WitRpcEnvelope {
        request_id: envelope.request_id.clone(),
        route_key: envelope.route_key.clone(),
        payload,
    }
}

/// A metadata entry in the component interface.
#[derive(Debug)]
pub struct WitMetadataEntry {
    pub key: String,
    pub value: String,
}

impl View for WitMetadataEntry {
    type V = (Seq<char>, Seq<char>);

    open spec fn view(&self) -> (Seq<char>, Seq<char>) {
        (self.key@, self.value@)
    }
}

/// A stream chunk in the component interface.
#[derive(Debug)]
pub struct WitDataChunk {
    pub stream_id: String,
    pub sequence: u64,
    pub payload: Vec<u8>,
    pub metadata: Vec<WitMetadataEntry>,
    pub timestamp_ms: Option<i64>,
}

impl View for WitDataChunk {
    type V = DataChunkView;

    open spec fn view(&self) -> DataChunkView {
        DataChunkView {
            stream_id: self.stream_id@,
            sequence: self.sequence,
            payload: self.payload@,
            metadata: Seq::new(self.metadata@.len(), |i: int| self.metadata@[i]@),
            timestamp_ms: self.timestamp_ms,
        }
    }
}

/// A stream chunk for the component interface.
pub fn proto_data_chunk_to_wit(chunk: DataChunk) -> (r: WitDataChunk)
    ensures
        r@ == chunk@,
{
    let mut metadata: Vec<WitMetadataEntry> = Vec::new();
    let mut i: usize = 0;
    while i < chunk.metadata.len()
        invariant
            i <= chunk.metadata@.len(),
            metadata@.len() == i,
            forall|j: int| 0 <= j < i ==> (#[trigger] metadata@[j])@ == chunk.metadata@[j]@,
        decreases chunk.metadata@.len() - i,
    {
        let entry: &MetadataEntry = &chunk.metadata[i];
        metadata.push(WitMetadataEntry { key: entry.key.clone(), value: entry.value.clone() });
        i = i + 1;
    }
    let r = WitDataChunk {
        payload: to_vec(&chunk.payload),
        sequence: chunk.sequence,
        metadata,
        timestamp_ms: chunk.timestamp_ms,
        stream_id: chunk.stream_id,
    };
    assert(r@.metadata =~= chunk@.metadata);
    r
}

/// A stream chunk from the component interface.
pub fn wit_data_chunk_to_proto(chunk: WitDataChunk) -> (r: DataChunk)
    ensures
        r@ == chunk@,
{
    let mut metadata: Vec<MetadataEntry> = Vec::new();
    let mut i: usize = 0;
    while i < chunk.metadata.len()
        invariant
            i <= chunk.metadata@.len(),
            metadata@.len() == i,
            forall|j: int| 0 <= j < i ==> (#[trigger] metadata@[j])@ == chunk.metadata@[j]@,
        decreases chunk.metadata@.len() - i,
    {
        let entry: &WitMetadataEntry = &chunk.metadata[i];
        metadata.push(MetadataEntry { key: entry.key.clone(), value: entry.value.clone() });
        i = i + 1;
    }
    let r = DataChunk {
        sequence: chunk.sequence,
        metadata,
        timestamp_ms: chunk.timestamp_ms,
        stream_id: chunk.stream_id,
        payload: from_vec(chunk.payload),
    };
    assert(r@.metadata =~= chunk@.metadata);
    r
}

/// State of a peer connection in the component interface.
#[derive(Debug, Clone, Copy, PartialEq, Eq, Structural)]
pub enum WitWebrtcPeerStatus {
    Idle,
    Connecting,
    Connected,
    Recovering,
}

impl View for WitWebrtcPeerStatus {
    type V = WebRtcPeerStatus;

    open spec fn view(&self) -> WebRtcPeerStatus {
        match *self {
            WitWebrtcPeerStatus::Idle => WebRtcPeerStatus::Idle,
            WitWebrtcPeerStatus::Connecting => WebRtcPeerStatus::Connecting,
            WitWebrtcPeerStatus::Connected => WebRtcPeerStatus::Connected,
            WitWebrtcPeerStatus::Recovering => WebRtcPeerStatus::Recovering,
        }
    }
}

/// State of a peer connection for the component interface.
pub fn proto_webrtc_peer_status_to_wit(status: WebRtcPeerStatus) -> (r: WitWebrtcPeerStatus)
    ensures
        r@ == status,
{
    match status {
        WebRtcPeerStatus::Idle => WitWebrtcPeerStatus::Idle,
        WebRtcPeerStatus::Connecting => WitWebrtcPeerStatus::Connecting,
        WebRtcPeerStatus::Connected => WitWebrtcPeerStatus::Connected,
        WebRtcPeerStatus::Recovering => WitWebrtcPeerStatus::Recovering,
    }
}

/// A peer event in the component interface.
#[derive(Debug)]
pub struct WitPeerEvent {
    pub peer: WitActrId,
    pub relayed: Option<bool>,
    pub status: Option<WitWebrtcPeerStatus>,
}

impl View for WitPeerEvent {
    type V = PeerEventView;

    open spec fn view(&self) -> PeerEventView {
        PeerEventView {
            peer: self.peer@,
            relayed: self.relayed,
            status: match self.status {
                Some(s) => Some(s@),
                None => None,
            },
        }
    }
}

/// A peer event for the component interface.
pub fn proto_peer_event_to_wit(event: &PeerEvent) -> (r: WitPeerEvent)
    ensures
        r@ == event@,
{
    WitPeerEvent {
        peer: proto_actr_id_to_wit(&event.peer),
        relayed: event.relayed,
        status: match event.status {
            Some(s) => Some(proto_webrtc_peer_status_to_wit(s)),
            None => None,
        },
    }
}

/// A point in time in the component interface.
#[derive(Debug, Clone, Copy, PartialEq, Eq, Structural)]
pub struct WitTimestamp {
    pub seconds: u64,
    pub nanoseconds: u32,
}

impl WitTimestamp {
    /// Nanoseconds since the Unix epoch.
    pub open spec fn nanos(self) -> int {
        self.seconds * 1_000_000_000 + self.nanoseconds
    }
}

/// A point in time for the component interface; one before the epoch becomes the
/// epoch.
pub fn system_time_to_wit(time: &WallTime) -> (r: WitTimestamp)
    ensures
        r.nanos() == (if time.before_epoch {
            0
        } else {
            time.distance.nanos() as int
        }),
        r.nanoseconds < 1_000_000_000,
{
    if time.before_epoch {
        WitTimestamp { seconds: 0, nanoseconds: 0 }
    } else {
        let seconds: u64 = time.distance.as_secs();
        let nanoseconds: u32 = time.distance.subsec_nanos();
        WitTimestamp { seconds, nanoseconds }
    }
}

/// A credential event in the component interface.
#[derive(Debug, Clone, Copy)]
pub struct WitCredentialEvent {
    pub new_expiry: WitTimestamp,
}

/// A credential event for the component interface.
pub fn proto_credential_event_to_wit(event: &CredentialEvent) -> (r: WitCredentialEvent)
    ensures
        r.new_expiry.nanos() == (if event.new_expiry.before_epoch {
            0
        } else {
            event.new_expiry.distance.nanos() as int
        }),
        r.new_expiry.nanoseconds < 1_000_000_000,
{
    WitCredentialEvent { new_expiry: system_time_to_wit(&event.new_expiry) }
}

/// A backpressure event in the component interface.
#[derive(Debug, Clone, Copy, PartialEq, Eq, Structural)]
pub struct WitBackpressureEvent {
    pub queue_len: u64,
    pub threshold: u64,
}

/// A backpressure event for the component interface.
pub fn proto_backpressure_event_to_wit(event: &BackpressureEvent) -> (r: WitBackpressureEvent)
    ensures
        r.queue_len == event.queue_len,
        r.threshold == event.threshold,
{
    WitBackpressureEvent { queue_len: event.queue_len as u64, threshold: event.threshold as u64 }
}

/// How a payload is carried, in the component interface.
#[derive(Debug, Clone, Copy, PartialEq, Eq, Structural)]
pub enum WitPayloadType {
    RpcReliable,
    RpcSignal,
    StreamReliable,
    StreamLatencyFirst,
    MediaRtp,
}

impl View for WitPayloadType {
    type V = PayloadType;

    open spec fn view(&self) -> PayloadType {
        match *self {
            WitPayloadType::RpcReliable => PayloadType::RpcReliable,
            WitPayloadType::RpcSignal => PayloadType::RpcSignal,
            WitPayloadType::StreamReliable => PayloadType::StreamReliable,
            WitPayloadType::StreamLatencyFirst => PayloadType::StreamLatencyFirst,
            WitPayloadType::MediaRtp => PayloadType::MediaRtp,
        }
    }
}

/// How a payload is carried, from the component interface.
pub fn wit_payload_type_to_proto(payload_type: WitPayloadType) -> (r: PayloadType)
    ensures
        r == payload_type@,
{
    match payload_type {
        WitPayloadType::RpcReliable => PayloadType::RpcReliable,
        WitPayloadType::RpcSignal => PayloadType::RpcSignal,
        WitPayloadType::StreamReliable => PayloadType::StreamReliable,
        WitPayloadType::StreamLatencyFirst => PayloadType::StreamLatencyFirst,
        WitPayloadType::MediaRtp => PayloadType::MediaRtp,
    }
}

/// What an observation hook hands to the guest.
#[derive(Debug)]
pub enum HookArgument {
    Nothing,
    Peer(WitPeerEvent),
    Credential(WitCredentialEvent),
    Backpressure(WitBackpressureEvent),
}

/// A call of a guest's observation hook.
#[derive(Debug)]
pub struct HookCall {
    pub entry: HookEntry,
    pub argument: HookArgument,
}

/// Whether an argument carries what an event reports.
pub open spec fn carries(argument: HookArgument, event: PackageHookEvent) -> bool {
    match event {
        PackageHookEvent::SignalingConnecting | PackageHookEvent::SignalingConnected
        | PackageHookEvent::SignalingDisconnected => argument is Nothing,
        PackageHookEvent::WebSocketConnecting(e) | PackageHookEvent::WebSocketConnected(e)
        | PackageHookEvent::WebSocketDisconnected(e) | PackageHookEvent::WebRtcConnecting(e)
        | PackageHookEvent::WebRtcConnected(e) | PackageHookEvent::WebRtcDisconnected(
            e,
        ) => argument matches HookArgument::Peer(w) && w@ == e@,
        PackageHookEvent::CredentialRenewed(e) | PackageHookEvent::CredentialExpiring(
            e,
        ) => argument matches HookArgument::Credential(w) && w.new_expiry.nanos() == (
        if e.new_expiry.before_epoch {
            0
        } else {
            e.new_expiry.distance.nanos() as int
        }) && w.new_expiry.nanoseconds < 1_000_000_000,
        PackageHookEvent::MailboxBackpressure(
            e,
        ) => argument matches HookArgument::Backpressure(w) && w.queue_len == e.queue_len
            && w.threshold == e.threshold,
    }
}

/// The guest call that reports an event.
pub fn hook_call(event: &PackageHookEvent) -> (r: HookCall)
    ensures
        r.entry == event.observer(),
        carries(r.argument, *event),
{
    let argument: HookArgument = match event {
        PackageHookEvent::SignalingConnecting | PackageHookEvent::SignalingConnected
        | PackageHookEvent::SignalingDisconnected => HookArgument::Nothing,
        PackageHookEvent::WebSocketConnecting(e) | PackageHookEvent::WebSocketConnected(e)
        | PackageHookEvent::WebSocketDisconnected(e) | PackageHookEvent::WebRtcConnecting(e)
        | PackageHookEvent::WebRtcConnected(e) | PackageHookEvent::WebRtcDisconnected(e) => {
            HookArgument::Peer(proto_peer_event_to_wit(e))
        },
        PackageHookEvent::CredentialRenewed(e) | PackageHookEvent::CredentialExpiring(e) => {
            HookArgument::Credential(proto_credential_event_to_wit(e))
        },
        PackageHookEvent::MailboxBackpressure(e) => HookArgument::Backpressure(
            proto_backpressure_event_to_wit(e),
        ),
    };
    HookCall { entry: event.entry(), argument }
}

// ── host imports ─────────────────────────────────────────────────────────────

/// The trap of a host call that no bridge serves.
pub open spec fn missing_bridge(world: WasmWorkloadKind) -> Seq<char> {
    match world {
        WasmWorkloadKind::V1Serial => "host ABI bridge not installed for this dispatch"@,
        WasmWorkloadKind::V2Concurrent => {
            "host ABI bridge not installed for this ctx-token (unknown or retired invocation)"@
        },
    }
}

/// What a guest's host call leads to: a trap with a text where no bridge serves
/// it, and otherwise the guest's answer.
pub fn forward_host_operation(
    world: WasmWorkloadKind,
    result: Option<HostOperationResult>,
    codes: &AbiCodes,
) -> (r: Result<Result<Vec<u8>, WitActrError>, String>)
    ensures
        match result {
            None => r matches Err(t) && t@ == missing_bridge(world),
            Some(HostOperationResult::Bytes(bytes)) => r == Ok::<
                Result<Vec<u8>, WitActrError>,
                String,
            >(Ok(bytes)),
            Some(HostOperationResult::Done) => r matches Ok(Ok(bytes)) && bytes@.len() == 0,
            Some(HostOperationResult::Error(code)) => r matches Ok(Err(e)) && e@
                == workload::status_error(code, *codes),
        },
{
    match result {
        None => {
            let text: &str = match world {
                WasmWorkloadKind::V1Serial => "host ABI bridge not installed for this dispatch",
                WasmWorkloadKind::V2Concurrent => {
                    "host ABI bridge not installed for this ctx-token (unknown or retired invocation)"
                },
            };
            Err(text.to_owned())
        },
        Some(result) => match guest_answer(result, codes) {
            Ok(bytes) => Ok(Ok(bytes)),
            Err(e) => Ok(Err(actr_error_to_wit(&e))),
        },
    }
}

/// What a guest gets for looking an actor up: the identity that the host found,
/// or why its answer could not be decoded.
pub fn discover_answer(
    answer: Result<Result<ActrId, String>, WitActrError>,
) -> (r: Result<WitActrId, WitActrError>)
    ensures
        match answer {
            Ok(Ok(id)) => r matches Ok(found) && found@ == id@,
            Ok(Err(t)) => r matches Err(e) && e@ == ActrErrorView::DecodeFailure(
                "host discover returned undecodable ActrId: "@ + t@,
            ),
            Err(error) => r == Err::<WitActrId, WitActrError>(error),
        },
{
    match answer {
        Ok(Ok(id)) => Ok(proto_actr_id_to_wit(&id)),
        Ok(Err(t)) => Err(
            WitActrError::DecodeFailure(
                cat("host discover returned undecodable ActrId: ", t.as_str()),
            ),
        ),
        Err(error) => Err(error),
    }
}

/// The identity of the actor that serves the current call; a trap outside of
/// one.
pub fn get_self_id(ctx: Option<&InvocationContext>) -> (r: Result<WitActrId, String>)
    ensures
        match ctx {
            Some(c) => r matches Ok(id) && id@ == c.self_id@,
            None => r matches Err(t) && t@
                == "get_self_id called outside of an active dispatch (no invocation context installed)"@,
        },
{
    match ctx {
        Some(c) => Ok(proto_actr_id_to_wit(&c.self_id)),
        None => Err(
            "get_self_id called outside of an active dispatch (no invocation context installed)".to_owned(),
        ),
    }
}

/// The identity of the current call's caller, if it has one; a trap outside of a
/// call.
pub fn get_caller_id(ctx: Option<&InvocationContext>) -> (r: Result<Option<WitActrId>, String>)
    ensures
        match ctx {
            Some(c) => match c.caller_id {
                Some(id) => r matches Ok(Some(found)) && found@ == id@,
                None => r matches Ok(None),
            },
            None => r matches Err(t) && t@
                == "get_caller_id called outside of an active dispatch (no invocation context installed)"@,
        },
{
    match ctx {
        Some(c) => match &c.caller_id {
            Some(id) => Ok(Some(proto_actr_id_to_wit(id))),
            None => Ok(None),
        },
        None => Err(
            "get_caller_id called outside of an active dispatch (no invocation context installed)".to_owned(),
        ),
    }
}

/// The current call's request id; a trap outside of a call.
pub fn get_request_id(ctx: Option<&InvocationContext>) -> (r: Result<String, String>)
    ensures
        match ctx {
            Some(c) => r matches Ok(t) && t@ == c.request_id@,
            None => r matches Err(t) && t@
                == "get_request_id called outside of an active dispatch (no invocation context installed)"@,
        },
{
    match ctx {
        Some(c) => Ok(c.request_id.clone()),
        None => Err(
            "get_request_id called outside of an active dispatch (no invocation context installed)".to_owned(),
        ),
    }
}

/// At which level a guest's message is logged.
#[derive(Debug, Clone, Copy, PartialEq, Eq, Structural)]
pub enum GuestLogLevel {
    Error,
    Warn,
    Info,
    Debug,
    Trace,
}

/// At which level a guest's message is logged; an unknown level counts as
/// information.
pub open spec fn level_named(level: Seq<char>) -> GuestLogLevel {
    if level == "error"@ {
        GuestLogLevel::Error
    } else if level == "warn"@ {
        GuestLogLevel::Warn
    } else if level == "debug"@ {
        GuestLogLevel::Debug
    } else if level == "trace"@ {
        GuestLogLevel::Trace
    } else {
        GuestLogLevel::Info
    }
}

/// At which level a guest's message is logged.
pub fn log_level(level: &str) -> (r: GuestLogLevel)
    ensures
        r == level_named(level@),
{
    if same_text(level, "error") {
        GuestLogLevel::Error
    } else if same_text(level, "warn") {
        GuestLogLevel::Warn
    } else if same_text(level, "debug") {
        GuestLogLevel::Debug
    } else if same_text(level, "trace") {
        GuestLogLevel::Trace
    } else {
        GuestLogLevel::Info
    }
}

// ── laws ─────────────────────────────────────────────────────────────────────

/// An identity that crosses the boundary and comes back is the same: whatever
/// `proto_actr_id_to_wit` gives for it, `wit_actr_id_to_proto` gives an identity
/// with the same contents and so the same text.
pub proof fn identities_survive_the_boundary(id: ActrId, crossed: WitActrId, back: ActrId)
    requires
        call_ensures(proto_actr_id_to_wit, (&id,), crossed),
        call_ensures(wit_actr_id_to_proto, (&crossed,), back),
    ensures
        back@ == id@,
        back@.repr() == id@.repr(),
{
}

/// An error that crosses the boundary and comes back is the same, and is handled
/// the same way.
pub proof fn errors_survive_the_boundary(e: ActrError, crossed: WitActrError, back: ActrError)
    requires
        call_ensures(actr_error_to_wit, (&e,), crossed),
        call_ensures(wit_actr_error_to_proto, (crossed,), back),
    ensures
        back@ == e@,
        back@.kind() == e@.kind(),
{
}

/// A stream chunk that crosses the boundary and comes back is the same.
pub proof fn chunks_survive_the_boundary(chunk: DataChunk, crossed: WitDataChunk, back: DataChunk)
    requires
        call_ensures(proto_data_chunk_to_wit, (chunk,), crossed),
        call_ensures(wit_data_chunk_to_proto, (crossed,), back),
    ensures
        back@ == chunk@,
{
}

/// Two identities with the same contents, one on each side of the boundary, agree in every
/// field.
pub proof fn crossed_identities_agree_in_every_field(w: WitActrId, p: ActrId)
    requires
        w@ == p@,
    ensures
        w.realm.realm_id == p.realm.realm_id,
        w.serial_number == p.serial_number,
        w.type_.manufacturer@ == p.actr_type.manufacturer@,
        w.type_.name@ == p.actr_type.name@,
        w.type_.version@ == p.actr_type.version@,
{
}

/// Two errors with the same contents, one on each side of the boundary, are the same error
/// with the same details.
pub proof fn crossed_errors_are_the_same_error(w: WitActrError, p: ActrError)
    requires
        w@ == p@,
    ensures
        match p {
            ActrError::Unavailable(m) => w matches WitActrError::Unavailable(n) && n@ == m@,
            ActrError::ConnectionNotReady { retry_after_ms } => w matches
                WitActrError::ConnectionNotReady(info) && info.retry_after_ms == retry_after_ms,
            ActrError::TimedOut => w is TimedOut,
            ActrError::NotFound(m) => w matches WitActrError::NotFound(n) && n@ == m@,
            ActrError::PermissionDenied(m) => w matches WitActrError::PermissionDenied(n) && n@
                == m@,
            ActrError::InvalidArgument(m) => w matches WitActrError::InvalidArgument(n) && n@ == m@,
            ActrError::UnknownRoute(m) => w matches WitActrError::UnknownRoute(n) && n@ == m@,
            ActrError::DependencyNotFound { service_name, message } => w matches
                WitActrError::DependencyNotFound(d) && d.service_name@ == service_name@
                && d.message@ == message@,
            ActrError::DecodeFailure(m) => w matches WitActrError::DecodeFailure(n) && n@ == m@,
            ActrError::NotImplemented(m) => w matches WitActrError::NotImplemented(n) && n@ == m@,
            ActrError::Internal(m) => w matches WitActrError::Internal(n) && n@ == m@,
        },
{
}

/// Two chunks with the same contents, one on each side of the boundary, agree in every
/// field and in every entry of their metadata.
pub proof fn crossed_chunks_agree_in_every_field(w: WitDataChunk, p: DataChunk, i: int)
    requires
        w@ == p@,
    ensures
        w.stream_id@ == p.stream_id@,
        w.sequence == p.sequence,
        w.payload@ == crate::octets::content(p.payload),
        w.timestamp_ms == p.timestamp_ms,
        w.metadata@.len() == p.metadata@.len(),
        0 <= i < p.metadata@.len() ==> w.metadata@[i].key@ == p.metadata@[i].key@
            && w.metadata@[i].value@ == p.metadata@[i].value@,
{
    let (a, b) = (w@.metadata, p@.metadata);
    assert(a == Seq::new(w.metadata@.len(), |i: int| w.metadata@[i]@));
    assert(b == Seq::new(p.metadata@.len(), |i: int| p.metadata@[i]@));
    assert(a.len() == w.metadata@.len());
    assert(b.len() == p.metadata@.len());
    if 0 <= i < p.metadata@.len() {
        assert(a[i] == w.metadata@[i]@);
        assert(b[i] == p.metadata@[i]@);
    }
}

/// Destinations, peer states and kinds of payload keep their names across the boundary.
pub proof fn crossed_choices_keep_their_names(
    d: WitDest,
    dest: Dest,
    s: WitWebrtcPeerStatus,
    k: WitPayloadType,
)
    requires
        d@ == dest@,
    ensures
        d is Host <==> dest is Host,
        d is Workload <==> dest is Workload,
        d is Peer <==> dest is Peer,
        s@ == WebRtcPeerStatus::Idle <==> s is Idle,
        s@ == WebRtcPeerStatus::Connecting <==> s is Connecting,
        s@ == WebRtcPeerStatus::Connected <==> s is Connected,
        s@ == WebRtcPeerStatus::Recovering <==> s is Recovering,
        k@ == PayloadType::RpcReliable <==> k is RpcReliable,
        k@ == PayloadType::RpcSignal <==> k is RpcSignal,
        k@ == PayloadType::StreamReliable <==> k is StreamReliable,
        k@ == PayloadType::StreamLatencyFirst <==> k is StreamLatencyFirst,
        k@ == PayloadType::MediaRtp <==> k is MediaRtp,
{
}

/// A peer event crosses with its peer, its relay and its state.
pub proof fn crossed_peer_events_agree(w: WitPeerEvent, p: PeerEvent)
    requires
        w@ == p@,
    ensures
        w.peer@ == p.peer@,
        w.relayed == p.relayed,
        w.status is Some <==> p.status is Some,
        p.status matches Some(s) ==> w.status->Some_0@ == s,
{
}

/// A message is logged at the level that its guest names, and as information where that
/// names none.
pub proof fn guests_name_their_log_level(level: Seq<char>)
    ensures
        level_named(level) == GuestLogLevel::Error <==> level == "error"@,
        level_named(level) == GuestLogLevel::Warn <==> level == "warn"@,
        level_named(level) == GuestLogLevel::Debug <==> level == "debug"@,
        level_named(level) == GuestLogLevel::Trace <==> level == "trace"@,
        level != "error"@ && level != "warn"@ && level != "debug"@ && level != "trace"@
            ==> level_named(level) == GuestLogLevel::Info,
{
    reveal_strlit("error");
    reveal_strlit("warn");
    reveal_strlit("debug");
    reveal_strlit("trace");
    assert("error"@[0] == 'e' && "warn"@[0] == 'w' && "debug"@[0] == 'd' && "trace"@[0] == 't');
}

/// Every event is reported with what it is about: a peer event with its peer, a credential
/// event with its expiry, backpressure with its numbers, and a signaling event alone.
pub proof fn hooks_carry_what_happened(argument: HookArgument, event: PackageHookEvent)
    requires
        carries(argument, event),
    ensures
        argument is Nothing <==> event is SignalingConnecting || event is SignalingConnected
            || event is SignalingDisconnected,
        argument is Credential <==> event is CredentialRenewed || event is CredentialExpiring,
        argument is Backpressure <==> event is MailboxBackpressure,
        event matches PackageHookEvent::WebSocketConnecting(e) ==> argument->Peer_0@ == e@,
        event matches PackageHookEvent::WebSocketConnected(e) ==> argument->Peer_0@ == e@,
        event matches PackageHookEvent::WebSocketDisconnected(e) ==> argument->Peer_0@ == e@,
        event matches PackageHookEvent::WebRtcConnecting(e) ==> argument->Peer_0@ == e@,
        event matches PackageHookEvent::WebRtcConnected(e) ==> argument->Peer_0@ == e@,
        event matches PackageHookEvent::WebRtcDisconnected(e) ==> argument->Peer_0@ == e@,
        event matches PackageHookEvent::CredentialRenewed(e) ==> !e.new_expiry.before_epoch ==> (
        argument->Credential_0.new_expiry.seconds * 1_000_000_000
            + argument->Credential_0.new_expiry.nanoseconds == e.new_expiry.distance.nanos()),
        event matches PackageHookEvent::CredentialExpiring(e) ==> !e.new_expiry.before_epoch ==> (
        argument->Credential_0.new_expiry.seconds * 1_000_000_000
            + argument->Credential_0.new_expiry.nanoseconds == e.new_expiry.distance.nanos()),
{
}

} // verus!
