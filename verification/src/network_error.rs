//! Network-layer errors: what they are, how to handle them, and what callers
//! see of them.
use crate::protocol::{ActrError, ActrErrorView, ActrIdError, ErrorKind};
use crate::text::cat;
use vstd::prelude::*;
use vstd::std_specs::convert::FromSpecImpl;
use vstd::string::*;

verus! {

/// `std::io::Error`.
#[verifier::external_type_specification]
#[verifier::external_body]
pub struct ExIoError(std::io::Error);

/// `url::ParseError`.
#[verifier::external_type_specification]
#[verifier::external_body]
pub struct ExUrlParseError(url::ParseError);

/// `serde_json::Error`.
#[verifier::external_type_specification]
#[verifier::external_body]
pub struct ExJsonError(serde_json::Error);

/// `anyhow::Error`.
#[verifier::external_type_specification]
#[verifier::external_body]
pub struct ExAnyhowError(anyhow::Error);

/// `webrtc::error::Error`.
#[verifier::external_type_specification]
#[verifier::external_body]
pub struct ExWebRtcError(webrtc::error::Error);

/// `tungstenite::Error`, the WebSocket error.
#[verifier::external_type_specification]
#[verifier::external_body]
pub struct ExWebSocketError(tokio_tungstenite::tungstenite::Error);

/// `prost::EncodeError`.
#[verifier::external_type_specification]
#[verifier::external_body]
pub struct ExEncodeError(prost::EncodeError);

/// `prost::DecodeError`.
#[verifier::external_type_specification]
#[verifier::external_body]
pub struct ExDecodeError(prost::DecodeError);

/// Network layer error types
#[derive(Debug)]
pub enum NetworkError {
    /// Connection error
    ConnectionError(String),
    /// Signaling error
    SignalingError(String),
    /// WebRTC error
    WebRtcError(String),
    /// Protocol error
    ProtocolError(String),
    /// Serialization error
    SerializationError(String),
    /// Deserialization error
    DeserializationError(String),
    /// Timeout error
    TimeoutError(String),
    /// Authentication error
    AuthenticationError(String),
    /// Credential expired error (requires re-registration)
    CredentialExpired(String),
    /// Permission error
    PermissionError(String),
    /// Configuration error
    ConfigurationError(String),
    /// Resource exhausted error
    ResourceExhaustedError(String),
    /// Network unreachable error
    NetworkUnreachableError(String),
    /// Service discovery error
    ServiceDiscoveryError(String),
    /// NAT traversal error
    NatTraversalError(String),
    /// Data channel error
    DataChannelError(String),
    /// Broadcast error
    BroadcastError(String),
    /// ICE error
    IceError(String),
    /// DTLS error
    DtlsError(String),
    /// STUN/TURN error
    StunTurnError(String),
    /// WebSocket error
    WebSocketError(String),
    /// Connection not found error
    ConnectionNotFound(String),
    /// Connection closed error (e.g., cancelled during creation)
    ConnectionClosed(String),
    /// Feature not implemented error
    NotImplemented(String),
    /// Channel closed error
    ChannelClosed(String),
    /// Send error
    SendError(String),
    /// No route error
    NoRoute(String),
    /// Invalid operation error
    InvalidOperation(String),
    /// Invalid argument error
    InvalidArgument(String),
    /// Channel not found error
    ChannelNotFound(String),
    /// IO error
    IoError(std::io::Error),
    /// URL parse error
    UrlParseError(url::ParseError),
    /// JSON error
    JsonError(serde_json::Error),
    /// Other error
    Other(anyhow::Error),
}

/// Network layer result type
pub type NetworkResult<T> = Result<T, NetworkError>;

impl NetworkError {
    /// How an error of this sort should be handled.
    pub open spec fn kind_of(self) -> ErrorKind {
        match self {
            // connection-level failures and timeouts that may resolve on retry
            NetworkError::ConnectionError(_)
            | NetworkError::SignalingError(_)
            | NetworkError::WebRtcError(_)
            | NetworkError::TimeoutError(_)
            | NetworkError::ResourceExhaustedError(_)
            | NetworkError::NetworkUnreachableError(_)
            | NetworkError::NatTraversalError(_)
            | NetworkError::IceError(_)
            | NetworkError::WebSocketError(_)
            | NetworkError::ConnectionClosed(_)
            | NetworkError::ChannelClosed(_)
            | NetworkError::SendError(_) => ErrorKind::Transient,
            // caller, configuration and permission errors that will not fix themselves
            NetworkError::AuthenticationError(_)
            | NetworkError::CredentialExpired(_)
            | NetworkError::PermissionError(_)
            | NetworkError::ConfigurationError(_)
            | NetworkError::ServiceDiscoveryError(_)
            | NetworkError::ConnectionNotFound(_)
            | NetworkError::NoRoute(_)
            | NetworkError::InvalidOperation(_)
            | NetworkError::InvalidArgument(_)
            | NetworkError::ChannelNotFound(_) => ErrorKind::Client,
            // data that cannot be decoded
            NetworkError::DeserializationError(_) => ErrorKind::Corrupt,
            // framework-level issues
            NetworkError::ProtocolError(_)
            | NetworkError::SerializationError(_)
            | NetworkError::DataChannelError(_)
            | NetworkError::BroadcastError(_)
            | NetworkError::DtlsError(_)
            | NetworkError::StunTurnError(_)
            | NetworkError::NotImplemented(_)
            | NetworkError::IoError(_)
            | NetworkError::UrlParseError(_)
            | NetworkError::JsonError(_)
            | NetworkError::Other(_) => ErrorKind::Internal,
        }
    }

    /// The category of an error.
    pub open spec fn category_of(self) -> Seq<char> {
        match self {
            NetworkError::ConnectionError(_) => "connection"@,
            NetworkError::SignalingError(_) => "signaling"@,
            NetworkError::WebRtcError(_) => "webrtc"@,
            NetworkError::ProtocolError(_) => "protocol"@,
            NetworkError::SerializationError(_)
            | NetworkError::DeserializationError(_) => "serialization"@,
            NetworkError::TimeoutError(_) => "timeout"@,
            NetworkError::AuthenticationError(_) => "authentication"@,
            NetworkError::CredentialExpired(_) => "credential_expired"@,
            NetworkError::PermissionError(_) => "permission"@,
            NetworkError::ConfigurationError(_) => "configuration"@,
            NetworkError::ResourceExhaustedError(_) => "resource_exhausted"@,
            NetworkError::NetworkUnreachableError(_) => "network_unreachable"@,
            NetworkError::ServiceDiscoveryError(_) => "service_discovery"@,
            NetworkError::NatTraversalError(_) => "nat_traversal"@,
            NetworkError::DataChannelError(_) => "data_channel"@,
            NetworkError::BroadcastError(_) => "broadcast"@,
            NetworkError::IceError(_) => "ice"@,
            NetworkError::DtlsError(_) => "dtls"@,
            NetworkError::StunTurnError(_) => "stun_turn"@,
            NetworkError::WebSocketError(_) => "websocket"@,
            NetworkError::ConnectionNotFound(_) => "connection_not_found"@,
            NetworkError::ConnectionClosed(_) => "connection_closed"@,
            NetworkError::NotImplemented(_) => "not_implemented"@,
            NetworkError::ChannelClosed(_) => "channel_closed"@,
            NetworkError::SendError(_) => "send_error"@,
            NetworkError::NoRoute(_) => "no_route"@,
            NetworkError::InvalidOperation(_) => "invalid_operation"@,
            NetworkError::InvalidArgument(_) => "invalid_argument"@,
            NetworkError::ChannelNotFound(_) => "channel_not_found"@,
            NetworkError::IoError(_) => "io"@,
            NetworkError::UrlParseError(_) => "url_parse"@,
            NetworkError::JsonError(_) => "json"@,
            NetworkError::Other(_) => "other"@,
        }
    }

    /// The severity of an error.
    pub open spec fn severity_of(self) -> u8 {
        match self {
            NetworkError::AuthenticationError(_)
            | NetworkError::CredentialExpired(_)
            | NetworkError::PermissionError(_)
            | NetworkError::ConfigurationError(_) => 10,
            NetworkError::SignalingError(_)
            | NetworkError::WebRtcError(_)
            | NetworkError::ProtocolError(_)
            | NetworkError::NotImplemented(_) => 8,
            NetworkError::ConnectionError(_)
            | NetworkError::NetworkUnreachableError(_) => 7,
            NetworkError::NatTraversalError(_)
            | NetworkError::IceError(_)
            | NetworkError::DtlsError(_)
            | NetworkError::InvalidOperation(_)
            | NetworkError::InvalidArgument(_) => 6,
            NetworkError::TimeoutError(_)
            | NetworkError::ResourceExhaustedError(_) => 5,
            NetworkError::ServiceDiscoveryError(_)
            | NetworkError::DataChannelError(_)
            | NetworkError::BroadcastError(_)
            | NetworkError::ConnectionNotFound(_)
            | NetworkError::ConnectionClosed(_)
            | NetworkError::ChannelClosed(_)
            | NetworkError::SendError(_)
            | NetworkError::NoRoute(_)
            | NetworkError::ChannelNotFound(_) => 4,
            NetworkError::SerializationError(_)
            | NetworkError::DeserializationError(_)
            | NetworkError::StunTurnError(_)
            | NetworkError::WebSocketError(_) => 3,
            NetworkError::IoError(_)
            | NetworkError::UrlParseError(_)
            | NetworkError::JsonError(_) => 2,
            NetworkError::Other(_) => 1,
        }
    }

    /// What the printed form of an error starts with.
    pub open spec fn heading(self) -> Seq<char> {
        match self {
            NetworkError::ConnectionError(_) => "Connection error: "@,
            NetworkError::SignalingError(_) => "Signaling error: "@,
            NetworkError::WebRtcError(_) => "WebRTC error: "@,
            NetworkError::ProtocolError(_) => "Protocol error: "@,
            NetworkError::SerializationError(_) => "Serialization error: "@,
            NetworkError::DeserializationError(_) => "Deserialization error: "@,
            NetworkError::TimeoutError(_) => "Timeout error: "@,
            NetworkError::AuthenticationError(_) => "Authentication error: "@,
            NetworkError::CredentialExpired(_) => "Credential expired: "@,
            NetworkError::PermissionError(_) => "Permission error: "@,
            NetworkError::ConfigurationError(_) => "Configuration error: "@,
            NetworkError::ResourceExhaustedError(_) => "Resource exhausted: "@,
            NetworkError::NetworkUnreachableError(_) => "Network unreachable: "@,
            NetworkError::ServiceDiscoveryError(_) => "Service discovery error: "@,
            NetworkError::NatTraversalError(_) => "NAT traversal error: "@,
            NetworkError::DataChannelError(_) => "Data channel error: "@,
            NetworkError::BroadcastError(_) => "Broadcast error: "@,
            NetworkError::IceError(_) => "ICE error: "@,
            NetworkError::DtlsError(_) => "DTLS error: "@,
            NetworkError::StunTurnError(_) => "STUN/TURN error: "@,
            NetworkError::WebSocketError(_) => "WebSocket error: "@,
            NetworkError::ConnectionNotFound(_) => "Connection not found: "@,
            NetworkError::ConnectionClosed(_) => "Connection closed: "@,
            NetworkError::NotImplemented(_) => "Not implemented: "@,
            NetworkError::ChannelClosed(_) => "Channel closed: "@,
            NetworkError::SendError(_) => "Send error: "@,
            NetworkError::NoRoute(_) => "No route: "@,
            NetworkError::InvalidOperation(_) => "Invalid operation: "@,
            NetworkError::InvalidArgument(_) => "Invalid argument: "@,
            NetworkError::ChannelNotFound(_) => "Channel not found: "@,
            NetworkError::IoError(_) => "IO error: "@,
            NetworkError::UrlParseError(_) => "URL parse error: "@,
            NetworkError::JsonError(_) => "JSON error: "@,
            NetworkError::Other(_) => "Other error: "@,
        }
    }

    /// Whether `t` is the message that this error carries: its own text, or what
    /// the wrapped error prints.
    pub open spec fn carries(self, t: String) -> bool {
        match self {
            NetworkError::ConnectionError(m) => m@ == t@,
            NetworkError::SignalingError(m) => m@ == t@,
            NetworkError::WebRtcError(m) => m@ == t@,
            NetworkError::ProtocolError(m) => m@ == t@,
            NetworkError::SerializationError(m) => m@ == t@,
            NetworkError::DeserializationError(m) => m@ == t@,
            NetworkError::TimeoutError(m) => m@ == t@,
            NetworkError::AuthenticationError(m) => m@ == t@,
            NetworkError::CredentialExpired(m) => m@ == t@,
            NetworkError::PermissionError(m) => m@ == t@,
            NetworkError::ConfigurationError(m) => m@ == t@,
            NetworkError::ResourceExhaustedError(m) => m@ == t@,
            NetworkError::NetworkUnreachableError(m) => m@ == t@,
            NetworkError::ServiceDiscoveryError(m) => m@ == t@,
            NetworkError::NatTraversalError(m) => m@ == t@,
            NetworkError::DataChannelError(m) => m@ == t@,
            NetworkError::BroadcastError(m) => m@ == t@,
            NetworkError::IceError(m) => m@ == t@,
            NetworkError::DtlsError(m) => m@ == t@,
            NetworkError::StunTurnError(m) => m@ == t@,
            NetworkError::WebSocketError(m) => m@ == t@,
            NetworkError::ConnectionNotFound(m) => m@ == t@,
            NetworkError::ConnectionClosed(m) => m@ == t@,
            NetworkError::NotImplemented(m) => m@ == t@,
            NetworkError::ChannelClosed(m) => m@ == t@,
            NetworkError::SendError(m) => m@ == t@,
            NetworkError::NoRoute(m) => m@ == t@,
            NetworkError::InvalidOperation(m) => m@ == t@,
            NetworkError::InvalidArgument(m) => m@ == t@,
            NetworkError::ChannelNotFound(m) => m@ == t@,
            NetworkError::IoError(e) => to_string_from_display_ensures::<std::io::Error>(&e, t),
            NetworkError::UrlParseError(e) => to_string_from_display_ensures::<url::ParseError>(&e, t),
            NetworkError::JsonError(e) => to_string_from_display_ensures::<serde_json::Error>(&e, t),
            NetworkError::Other(e) => to_string_from_display_ensures::<anyhow::Error>(&e, t),
        }
    }

    /// Whether `text` is the printed form of this error: its heading and the
    /// message it carries.
    pub open spec fn prints(self, text: Seq<char>) -> bool {
        exists|t: String| #[trigger] self.carries(t) && text == self.heading() + t@
    }

    /// How an error of this sort should be handled.
    pub fn kind(&self) -> (r: ErrorKind)
        ensures
            r == self.kind_of(),
    {
        match self {
            // connection-level failures and timeouts that may resolve on retry
            NetworkError::ConnectionError(_)
            | NetworkError::SignalingError(_)
            | NetworkError::WebRtcError(_)
            | NetworkError::TimeoutError(_)
            | NetworkError::ResourceExhaustedError(_)
            | NetworkError::NetworkUnreachableError(_)
            | NetworkError::NatTraversalError(_)
            | NetworkError::IceError(_)
            | NetworkError::WebSocketError(_)
            | NetworkError::ConnectionClosed(_)
            | NetworkError::ChannelClosed(_)
            | NetworkError::SendError(_) => ErrorKind::Transient,
            // caller, configuration and permission errors that will not fix themselves
            NetworkError::AuthenticationError(_)
            | NetworkError::CredentialExpired(_)
            | NetworkError::PermissionError(_)
            | NetworkError::ConfigurationError(_)
            | NetworkError::ServiceDiscoveryError(_)
            | NetworkError::ConnectionNotFound(_)
            | NetworkError::NoRoute(_)
            | NetworkError::InvalidOperation(_)
            | NetworkError::InvalidArgument(_)
            | NetworkError::ChannelNotFound(_) => ErrorKind::Client,
            // data that cannot be decoded
            NetworkError::DeserializationError(_) => ErrorKind::Corrupt,
            // framework-level issues
            NetworkError::ProtocolError(_)
            | NetworkError::SerializationError(_)
            | NetworkError::DataChannelError(_)
            | NetworkError::BroadcastError(_)
            | NetworkError::DtlsError(_)
            | NetworkError::StunTurnError(_)
            | NetworkError::NotImplemented(_)
            | NetworkError::IoError(_)
            | NetworkError::UrlParseError(_)
            | NetworkError::JsonError(_)
            | NetworkError::Other(_) => ErrorKind::Internal,
        }
    }

    /// Only transient errors are worth retrying.
    pub fn is_retryable(&self) -> (r: bool)
        ensures
            r == (self.kind_of() == ErrorKind::Transient),
    {
        self.kind().is_retryable()
    }

    /// Only corrupt data goes to the dead-letter queue.
    pub fn requires_dlq(&self) -> (r: bool)
        ensures
            r == (self.kind_of() == ErrorKind::Corrupt),
    {
        self.kind().requires_dlq()
    }

    /// Get error category
    pub fn category(&self) -> (r: &'static str)
        ensures
            r@ == self.category_of(),
    {
        match self {
            NetworkError::ConnectionError(_) => "connection",
            NetworkError::SignalingError(_) => "signaling",
            NetworkError::WebRtcError(_) => "webrtc",
            NetworkError::ProtocolError(_) => "protocol",
            NetworkError::SerializationError(_)
            | NetworkError::DeserializationError(_) => "serialization",
            NetworkError::TimeoutError(_) => "timeout",
            NetworkError::AuthenticationError(_) => "authentication",
            NetworkError::CredentialExpired(_) => "credential_expired",
            NetworkError::PermissionError(_) => "permission",
            NetworkError::ConfigurationError(_) => "configuration",
            NetworkError::ResourceExhaustedError(_) => "resource_exhausted",
            NetworkError::NetworkUnreachableError(_) => "network_unreachable",
            NetworkError::ServiceDiscoveryError(_) => "service_discovery",
            NetworkError::NatTraversalError(_) => "nat_traversal",
            NetworkError::DataChannelError(_) => "data_channel",
            NetworkError::BroadcastError(_) => "broadcast",
            NetworkError::IceError(_) => "ice",
            NetworkError::DtlsError(_) => "dtls",
            NetworkError::StunTurnError(_) => "stun_turn",
            NetworkError::WebSocketError(_) => "websocket",
            NetworkError::ConnectionNotFound(_) => "connection_not_found",
            NetworkError::ConnectionClosed(_) => "connection_closed",
            NetworkError::NotImplemented(_) => "not_implemented",
            NetworkError::ChannelClosed(_) => "channel_closed",
            NetworkError::SendError(_) => "send_error",
            NetworkError::NoRoute(_) => "no_route",
            NetworkError::InvalidOperation(_) => "invalid_operation",
            NetworkError::InvalidArgument(_) => "invalid_argument",
            NetworkError::ChannelNotFound(_) => "channel_not_found",
            NetworkError::IoError(_) => "io",
            NetworkError::UrlParseError(_) => "url_parse",
            NetworkError::JsonError(_) => "json",
            NetworkError::Other(_) => "other",
        }
    }

    /// Get error severity (1-10, 10 is most severe)
    pub fn severity(&self) -> (r: u8)
        ensures
            r == self.severity_of(),
            1 <= r <= 10,
    {
        match self {
            NetworkError::AuthenticationError(_)
            | NetworkError::CredentialExpired(_)
            | NetworkError::PermissionError(_)
            | NetworkError::ConfigurationError(_) => 10,
            NetworkError::SignalingError(_)
            | NetworkError::WebRtcError(_)
            | NetworkError::ProtocolError(_)
            | NetworkError::NotImplemented(_) => 8,
            NetworkError::ConnectionError(_)
            | NetworkError::NetworkUnreachableError(_) => 7,
            NetworkError::NatTraversalError(_)
            | NetworkError::IceError(_)
            | NetworkError::DtlsError(_)
            | NetworkError::InvalidOperation(_)
            | NetworkError::InvalidArgument(_) => 6,
            NetworkError::TimeoutError(_)
            | NetworkError::ResourceExhaustedError(_) => 5,
            NetworkError::ServiceDiscoveryError(_)
            | NetworkError::DataChannelError(_)
            | NetworkError::BroadcastError(_)
            | NetworkError::ConnectionNotFound(_)
            | NetworkError::ConnectionClosed(_)
            | NetworkError::ChannelClosed(_)
            | NetworkError::SendError(_)
            | NetworkError::NoRoute(_)
            | NetworkError::ChannelNotFound(_) => 4,
            NetworkError::SerializationError(_)
            | NetworkError::DeserializationError(_)
            | NetworkError::StunTurnError(_)
            | NetworkError::WebSocketError(_) => 3,
            NetworkError::IoError(_)
            | NetworkError::UrlParseError(_)
            | NetworkError::JsonError(_) => 2,
            NetworkError::Other(_) => 1,
        }
    }

    fn heading_str(&self) -> (r: &'static str)
        ensures
            r@ == self.heading(),
    {
        match self {
            NetworkError::ConnectionError(_) => "Connection error: ",
            NetworkError::SignalingError(_) => "Signaling error: ",
            NetworkError::WebRtcError(_) => "WebRTC error: ",
            NetworkError::ProtocolError(_) => "Protocol error: ",
            NetworkError::SerializationError(_) => "Serialization error: ",
            NetworkError::DeserializationError(_) => "Deserialization error: ",
            NetworkError::TimeoutError(_) => "Timeout error: ",
            NetworkError::AuthenticationError(_) => "Authentication error: ",
            NetworkError::CredentialExpired(_) => "Credential expired: ",
            NetworkError::PermissionError(_) => "Permission error: ",
            NetworkError::ConfigurationError(_) => "Configuration error: ",
            NetworkError::ResourceExhaustedError(_) => "Resource exhausted: ",
            NetworkError::NetworkUnreachableError(_) => "Network unreachable: ",
            NetworkError::ServiceDiscoveryError(_) => "Service discovery error: ",
            NetworkError::NatTraversalError(_) => "NAT traversal error: ",
            NetworkError::DataChannelError(_) => "Data channel error: ",
            NetworkError::BroadcastError(_) => "Broadcast error: ",
            NetworkError::IceError(_) => "ICE error: ",
            NetworkError::DtlsError(_) => "DTLS error: ",
            NetworkError::StunTurnError(_) => "STUN/TURN error: ",
            NetworkError::WebSocketError(_) => "WebSocket error: ",
            NetworkError::ConnectionNotFound(_) => "Connection not found: ",
            NetworkError::ConnectionClosed(_) => "Connection closed: ",
            NetworkError::NotImplemented(_) => "Not implemented: ",
            NetworkError::ChannelClosed(_) => "Channel closed: ",
            NetworkError::SendError(_) => "Send error: ",
            NetworkError::NoRoute(_) => "No route: ",
            NetworkError::InvalidOperation(_) => "Invalid operation: ",
            NetworkError::InvalidArgument(_) => "Invalid argument: ",
            NetworkError::ChannelNotFound(_) => "Channel not found: ",
            NetworkError::IoError(_) => "IO error: ",
            NetworkError::UrlParseError(_) => "URL parse error: ",
            NetworkError::JsonError(_) => "JSON error: ",
            NetworkError::Other(_) => "Other error: ",
        }
    }

    fn message(&self) -> (r: String)
        ensures
            self.carries(r),
    {
        match self {
            NetworkError::ConnectionError(m) => m.clone(),
            NetworkError::SignalingError(m) => m.clone(),
            NetworkError::WebRtcError(m) => m.clone(),
            NetworkError::ProtocolError(m) => m.clone(),
            NetworkError::SerializationError(m) => m.clone(),
            NetworkError::DeserializationError(m) => m.clone(),
            NetworkError::TimeoutError(m) => m.clone(),
            NetworkError::AuthenticationError(m) => m.clone(),
            NetworkError::CredentialExpired(m) => m.clone(),
            NetworkError::PermissionError(m) => m.clone(),
            NetworkError::ConfigurationError(m) => m.clone(),
            NetworkError::ResourceExhaustedError(m) => m.clone(),
            NetworkError::NetworkUnreachableError(m) => m.clone(),
            NetworkError::ServiceDiscoveryError(m) => m.clone(),
            NetworkError::NatTraversalError(m) => m.clone(),
            NetworkError::DataChannelError(m) => m.clone(),
            NetworkError::BroadcastError(m) => m.clone(),
            NetworkError::IceError(m) => m.clone(),
            NetworkError::DtlsError(m) => m.clone(),
            NetworkError::StunTurnError(m) => m.clone(),
            NetworkError::WebSocketError(m) => m.clone(),
            NetworkError::ConnectionNotFound(m) => m.clone(),
            NetworkError::ConnectionClosed(m) => m.clone(),
            NetworkError::NotImplemented(m) => m.clone(),
            NetworkError::ChannelClosed(m) => m.clone(),
            NetworkError::SendError(m) => m.clone(),
            NetworkError::NoRoute(m) => m.clone(),
            NetworkError::InvalidOperation(m) => m.clone(),
            NetworkError::InvalidArgument(m) => m.clone(),
            NetworkError::ChannelNotFound(m) => m.clone(),
            NetworkError::IoError(e) => e.to_string(),
            NetworkError::UrlParseError(e) => e.to_string(),
            NetworkError::JsonError(e) => e.to_string(),
            NetworkError::Other(e) => e.to_string(),
        }
    }

    /// Printed form of the error.
    pub fn to_text(&self) -> (r: String)
        ensures
            self.prints(r@),
    {
        let message: String = self.message();
        let text: String = cat(self.heading_str(), message.as_str());
        assert(self.carries(message));
        text
    }
}

/// The user-visible error that a network error becomes. Timeouts, permission
/// failures and missing targets keep their precise counterpart; every other
/// error becomes the one of its kind, with its printed form.
pub open spec fn becomes(err: NetworkError, r: ActrErrorView) -> bool {
    match err {
        NetworkError::TimeoutError(_) => r == ActrErrorView::TimedOut,
        NetworkError::PermissionError(m)
        | NetworkError::AuthenticationError(m)
        | NetworkError::CredentialExpired(m) => r == ActrErrorView::PermissionDenied(m@),
        NetworkError::NoRoute(m)
        | NetworkError::ConnectionNotFound(m)
        | NetworkError::ChannelNotFound(m)
        | NetworkError::ServiceDiscoveryError(m) => r == ActrErrorView::NotFound(m@),
        _ => match err.kind_of() {
            ErrorKind::Transient => r matches ActrErrorView::Unavailable(t) && err.prints(t),
            ErrorKind::Client => r matches ActrErrorView::NotFound(t) && err.prints(t),
            ErrorKind::Corrupt => r matches ActrErrorView::DecodeFailure(t) && err.prints(t),
            ErrorKind::Internal => r matches ActrErrorView::Internal(t) && err.prints(t),
        },
    }
}

/// Convert `NetworkError` to the public top-level `ActrError`: the single
/// boundary where transport failures become user-visible errors.
impl From<NetworkError> for ActrError {
    fn from(err: NetworkError) -> (r: ActrError)
        ensures
            becomes(err, r@),
    {
        match &err {
            NetworkError::TimeoutError(_) => return ActrError::TimedOut,
            NetworkError::PermissionError(msg)
            | NetworkError::AuthenticationError(msg)
            | NetworkError::CredentialExpired(msg) => {
                return ActrError::PermissionDenied(msg.clone());
            },
            NetworkError::NoRoute(msg)
            | NetworkError::ConnectionNotFound(msg)
            | NetworkError::ChannelNotFound(msg)
            | NetworkError::ServiceDiscoveryError(msg) => {
                return ActrError::NotFound(msg.clone());
            },
            _ => {},
        }
        match err.kind() {
            ErrorKind::Transient => ActrError::Unavailable(err.to_text()),
            ErrorKind::Client => ActrError::NotFound(err.to_text()),
            ErrorKind::Corrupt => ActrError::DecodeFailure(err.to_text()),
            ErrorKind::Internal => ActrError::Internal(err.to_text()),
        }
    }
}

impl FromSpecImpl<NetworkError> for ActrError {
    open spec fn obeys_from_spec() -> bool {
        false
    }

    open spec fn from_spec(err: NetworkError) -> ActrError {
        arbitrary()
    }
}

impl From<std::io::Error> for NetworkError {
    fn from(err: std::io::Error) -> (r: NetworkError) {
        NetworkError::IoError(err)
    }
}

impl FromSpecImpl<std::io::Error> for NetworkError {
    open spec fn obeys_from_spec() -> bool {
        true
    }

    open spec fn from_spec(err: std::io::Error) -> NetworkError {
        NetworkError::IoError(err)
    }
}

impl From<url::ParseError> for NetworkError {
    fn from(err: url::ParseError) -> (r: NetworkError) {
        NetworkError::UrlParseError(err)
    }
}

impl FromSpecImpl<url::ParseError> for NetworkError {
    open spec fn obeys_from_spec() -> bool {
        true
    }

    open spec fn from_spec(err: url::ParseError) -> NetworkError {
        NetworkError::UrlParseError(err)
    }
}

impl From<serde_json::Error> for NetworkError {
    fn from(err: serde_json::Error) -> (r: NetworkError) {
        NetworkError::JsonError(err)
    }
}

impl FromSpecImpl<serde_json::Error> for NetworkError {
    open spec fn obeys_from_spec() -> bool {
        true
    }

    open spec fn from_spec(err: serde_json::Error) -> NetworkError {
        NetworkError::JsonError(err)
    }
}

impl From<anyhow::Error> for NetworkError {
    fn from(err: anyhow::Error) -> (r: NetworkError) {
        NetworkError::Other(err)
    }
}

impl FromSpecImpl<anyhow::Error> for NetworkError {
    open spec fn obeys_from_spec() -> bool {
        true
    }

    open spec fn from_spec(err: anyhow::Error) -> NetworkError {
        NetworkError::Other(err)
    }
}

/// Convert from WebRTC error
impl From<webrtc::error::Error> for NetworkError {
    fn from(err: webrtc::error::Error) -> (r: NetworkError)
        ensures
            r matches NetworkError::WebRtcError(t) && to_string_from_display_ensures::<webrtc::error::Error>(&err, t),
    {
        NetworkError::WebRtcError(err.to_string())
    }
}

impl FromSpecImpl<webrtc::error::Error> for NetworkError {
    open spec fn obeys_from_spec() -> bool {
        false
    }

    open spec fn from_spec(err: webrtc::error::Error) -> NetworkError {
        arbitrary()
    }
}

/// Convert from WebSocket error
impl From<tokio_tungstenite::tungstenite::Error> for NetworkError {
    fn from(err: tokio_tungstenite::tungstenite::Error) -> (r: NetworkError)
        ensures
            r matches NetworkError::WebSocketError(t) && to_string_from_display_ensures::<tokio_tungstenite::tungstenite::Error>(&err, t),
    {
        NetworkError::WebSocketError(err.to_string())
    }
}

impl FromSpecImpl<tokio_tungstenite::tungstenite::Error> for NetworkError {
    open spec fn obeys_from_spec() -> bool {
        false
    }

    open spec fn from_spec(err: tokio_tungstenite::tungstenite::Error) -> NetworkError {
        arbitrary()
    }
}

/// Convert from protobuf encode error
impl From<prost::EncodeError> for NetworkError {
    fn from(err: prost::EncodeError) -> (r: NetworkError)
        ensures
            r matches NetworkError::SerializationError(t) && to_string_from_display_ensures::<prost::EncodeError>(&err, t),
    {
        NetworkError::SerializationError(err.to_string())
    }
}

impl FromSpecImpl<prost::EncodeError> for NetworkError {
    open spec fn obeys_from_spec() -> bool {
        false
    }

    open spec fn from_spec(err: prost::EncodeError) -> NetworkError {
        arbitrary()
    }
}

/// Convert from protobuf decode error
impl From<prost::DecodeError> for NetworkError {
    fn from(err: prost::DecodeError) -> (r: NetworkError)
        ensures
            r matches NetworkError::DeserializationError(t) && to_string_from_display_ensures::<prost::DecodeError>(&err, t),
    {
        NetworkError::DeserializationError(err.to_string())
    }
}

impl FromSpecImpl<prost::DecodeError> for NetworkError {
    open spec fn obeys_from_spec() -> bool {
        false
    }

    open spec fn from_spec(err: prost::DecodeError) -> NetworkError {
        arbitrary()
    }
}

/// Convert from an identity-parsing error
impl From<ActrIdError> for NetworkError {
    fn from(err: ActrIdError) -> (r: NetworkError) {
        NetworkError::InvalidArgument(err.message)
    }
}

impl FromSpecImpl<ActrIdError> for NetworkError {
    open spec fn obeys_from_spec() -> bool {
        true
    }

    open spec fn from_spec(err: ActrIdError) -> NetworkError {
        NetworkError::InvalidArgument(err.message)
    }
}

// ── laws ─────────────────────────────────────────────────────────────────────

/// Only corrupt data becomes a decode failure, and so reaches the dead-letter
/// queue; and a corrupt error becomes nothing else.
pub proof fn decode_failure_means_corrupt(err: NetworkError, r: ActrErrorView)
    requires
        becomes(err, r),
    ensures
        r is DecodeFailure <==> err.kind_of() == ErrorKind::Corrupt,
{
}

/// What callers are told to retry was transient.
pub proof fn unavailable_means_transient(err: NetworkError, r: ActrErrorView)
    requires
        becomes(err, r),
        r is Unavailable || r is TimedOut,
    ensures
        err.kind_of() == ErrorKind::Transient,
{
}

/// A client error never becomes a retryable or internal one.
pub proof fn client_errors_stay_client(err: NetworkError, r: ActrErrorView)
    requires
        becomes(err, r),
        err.kind_of() == ErrorKind::Client,
    ensures
        r is NotFound || r is PermissionDenied,
{
}

/// An error is handled in the same way on both sides of the boundary: what may be retried,
/// what is the caller's fault, what is damaged and what is the framework's own fault stays
/// so.
pub proof fn the_boundary_keeps_how_errors_are_handled(err: NetworkError, r: ActrErrorView)
    requires
        becomes(err, r),
    ensures
        r.kind() == err.kind_of(),
        r is TimedOut <==> err is TimeoutError,
        r is PermissionDenied <==> err is PermissionError || err is AuthenticationError || err
            is CredentialExpired,
        err matches NetworkError::PermissionError(m) ==> r == ActrErrorView::PermissionDenied(m@),
        err matches NetworkError::AuthenticationError(m) ==> r == ActrErrorView::PermissionDenied(
            m@,
        ),
        err matches NetworkError::CredentialExpired(m) ==> r == ActrErrorView::PermissionDenied(
            m@,
        ),
        err matches NetworkError::NoRoute(m) ==> r == ActrErrorView::NotFound(m@),
        err matches NetworkError::ConnectionNotFound(m) ==> r == ActrErrorView::NotFound(m@),
        err matches NetworkError::ChannelNotFound(m) ==> r == ActrErrorView::NotFound(m@),
        err matches NetworkError::ServiceDiscoveryError(m) ==> r == ActrErrorView::NotFound(m@),
{
}

/// Retrying is for connections, timeouts and exhausted resources; what a caller, a
/// configuration or a permission got wrong stays wrong; only bytes that do not decode are
/// corrupt; and all else is the framework's own fault.
pub proof fn transport_errors_are_handled_by_cause(err: NetworkError)
    ensures
        err.kind_of() == ErrorKind::Transient <==> err is ConnectionError || err is SignalingError
            || err is WebRtcError || err is TimeoutError || err is ResourceExhaustedError || err
            is NetworkUnreachableError || err is NatTraversalError || err is IceError || err
            is WebSocketError || err is ConnectionClosed || err is ChannelClosed || err
            is SendError,
        err.kind_of() == ErrorKind::Client <==> err is AuthenticationError || err
            is CredentialExpired || err is PermissionError || err is ConfigurationError || err
            is ServiceDiscoveryError || err is ConnectionNotFound || err is NoRoute || err
            is InvalidOperation || err is InvalidArgument || err is ChannelNotFound,
        err.kind_of() == ErrorKind::Corrupt <==> err is DeserializationError,
{
}

/// Nothing is graver than an error of credentials, permissions or configuration, which no
/// retry can mend; a transient error is never that grave, and only an error of unknown
/// origin is of no account.
pub proof fn severity_follows_the_cause(err: NetworkError)
    ensures
        1 <= err.severity_of() <= 10,
        err.severity_of() == 10 <==> err is AuthenticationError || err is CredentialExpired || err
            is PermissionError || err is ConfigurationError,
        err.severity_of() == 1 <==> err is Other,
        err.kind_of() == ErrorKind::Transient ==> 3 <= err.severity_of() <= 8,
        err.severity_of() == 8 <==> err is SignalingError || err is WebRtcError || err
            is ProtocolError || err is NotImplemented,
        err.severity_of() == 7 <==> err is ConnectionError || err is NetworkUnreachableError,
        err.severity_of() == 6 <==> err is NatTraversalError || err is IceError || err is DtlsError
            || err is InvalidOperation || err is InvalidArgument,
        err.severity_of() == 5 <==> err is TimeoutError || err is ResourceExhaustedError,
        err.severity_of() == 3 <==> err is SerializationError || err is DeserializationError || err
            is StunTurnError || err is WebSocketError,
        err.severity_of() == 2 <==> err is IoError || err is UrlParseError || err is JsonError,
        err.severity_of() != 9,
{
}

/// Every error is filed under the name of what failed.
pub proof fn categories_name_what_failed(err: NetworkError)
    ensures
        err is ConnectionError ==> err.category_of() == "connection"@,
        err is SignalingError ==> err.category_of() == "signaling"@,
        err is WebRtcError ==> err.category_of() == "webrtc"@,
        err is ProtocolError ==> err.category_of() == "protocol"@,
        err is SerializationError ==> err.category_of() == "serialization"@,
        err is DeserializationError ==> err.category_of() == "serialization"@,
        err is TimeoutError ==> err.category_of() == "timeout"@,
        err is AuthenticationError ==> err.category_of() == "authentication"@,
        err is CredentialExpired ==> err.category_of() == "credential_expired"@,
        err is PermissionError ==> err.category_of() == "permission"@,
        err is ConfigurationError ==> err.category_of() == "configuration"@,
        err is ResourceExhaustedError ==> err.category_of() == "resource_exhausted"@,
        err is NetworkUnreachableError ==> err.category_of() == "network_unreachable"@,
        err is ServiceDiscoveryError ==> err.category_of() == "service_discovery"@,
        err is NatTraversalError ==> err.category_of() == "nat_traversal"@,
        err is DataChannelError ==> err.category_of() == "data_channel"@,
        err is BroadcastError ==> err.category_of() == "broadcast"@,
        err is IceError ==> err.category_of() == "ice"@,
        err is DtlsError ==> err.category_of() == "dtls"@,
        err is StunTurnError ==> err.category_of() == "stun_turn"@,
        err is WebSocketError ==> err.category_of() == "websocket"@,
        err is ConnectionNotFound ==> err.category_of() == "connection_not_found"@,
        err is ConnectionClosed ==> err.category_of() == "connection_closed"@,
        err is NotImplemented ==> err.category_of() == "not_implemented"@,
        err is ChannelClosed ==> err.category_of() == "channel_closed"@,
        err is SendError ==> err.category_of() == "send_error"@,
        err is NoRoute ==> err.category_of() == "no_route"@,
        err is InvalidOperation ==> err.category_of() == "invalid_operation"@,
        err is InvalidArgument ==> err.category_of() == "invalid_argument"@,
        err is ChannelNotFound ==> err.category_of() == "channel_not_found"@,
        err is IoError ==> err.category_of() == "io"@,
        err is UrlParseError ==> err.category_of() == "url_parse"@,
        err is JsonError ==> err.category_of() == "json"@,
        err is Other ==> err.category_of() == "other"@,
{
}

/// The printed form of an error starts with what failed and ends with the message that it
/// carries.
pub proof fn printed_errors_start_with_what_failed(err: NetworkError, printed: Seq<char>)
    requires
        err.prints(printed),
    ensures
        err.heading().is_prefix_of(printed),
        exists|t: String| #[trigger] err.carries(t) && t@.is_suffix_of(printed),
        err is ConnectionError ==> err.heading() == "Connection error: "@,
        err is SignalingError ==> err.heading() == "Signaling error: "@,
        err is WebRtcError ==> err.heading() == "WebRTC error: "@,
        err is ProtocolError ==> err.heading() == "Protocol error: "@,
        err is SerializationError ==> err.heading() == "Serialization error: "@,
        err is DeserializationError ==> err.heading() == "Deserialization error: "@,
        err is TimeoutError ==> err.heading() == "Timeout error: "@,
        err is AuthenticationError ==> err.heading() == "Authentication error: "@,
        err is CredentialExpired ==> err.heading() == "Credential expired: "@,
        err is PermissionError ==> err.heading() == "Permission error: "@,
        err is ConfigurationError ==> err.heading() == "Configuration error: "@,
        err is ResourceExhaustedError ==> err.heading() == "Resource exhausted: "@,
        err is NetworkUnreachableError ==> err.heading() == "Network unreachable: "@,
        err is ServiceDiscoveryError ==> err.heading() == "Service discovery error: "@,
        err is NatTraversalError ==> err.heading() == "NAT traversal error: "@,
        err is DataChannelError ==> err.heading() == "Data channel error: "@,
        err is BroadcastError ==> err.heading() == "Broadcast error: "@,
        err is IceError ==> err.heading() == "ICE error: "@,
        err is DtlsError ==> err.heading() == "DTLS error: "@,
        err is StunTurnError ==> err.heading() == "STUN/TURN error: "@,
        err is WebSocketError ==> err.heading() == "WebSocket error: "@,
        err is ConnectionNotFound ==> err.heading() == "Connection not found: "@,
        err is ConnectionClosed ==> err.heading() == "Connection closed: "@,
        err is NotImplemented ==> err.heading() == "Not implemented: "@,
        err is ChannelClosed ==> err.heading() == "Channel closed: "@,
        err is SendError ==> err.heading() == "Send error: "@,
        err is NoRoute ==> err.heading() == "No route: "@,
        err is InvalidOperation ==> err.heading() == "Invalid operation: "@,
        err is InvalidArgument ==> err.heading() == "Invalid argument: "@,
        err is ChannelNotFound ==> err.heading() == "Channel not found: "@,
        err is IoError ==> err.heading() == "IO error: "@,
        err is UrlParseError ==> err.heading() == "URL parse error: "@,
        err is JsonError ==> err.heading() == "JSON error: "@,
        err is Other ==> err.heading() == "Other error: "@,
{
    let t = choose|t: String| #[trigger] err.carries(t) && printed == err.heading() + t@;
    assert(printed.take(err.heading().len() as int) =~= err.heading());
    assert(printed.subrange(printed.len() - t@.len(), printed.len() as int) =~= t@);
    assert(err.carries(t) && t@.is_suffix_of(printed));
}

/// An error carries its own text, and no other.
pub proof fn errors_carry_their_own_text(err: NetworkError, t: String)
    requires
        err.carries(t),
    ensures
        err matches NetworkError::ConnectionError(m) ==> m@ == t@,
        err matches NetworkError::SignalingError(m) ==> m@ == t@,
        err matches NetworkError::WebRtcError(m) ==> m@ == t@,
        err matches NetworkError::ProtocolError(m) ==> m@ == t@,
        err matches NetworkError::SerializationError(m) ==> m@ == t@,
        err matches NetworkError::DeserializationError(m) ==> m@ == t@,
        err matches NetworkError::TimeoutError(m) ==> m@ == t@,
        err matches NetworkError::AuthenticationError(m) ==> m@ == t@,
        err matches NetworkError::CredentialExpired(m) ==> m@ == t@,
        err matches NetworkError::PermissionError(m) ==> m@ == t@,
        err matches NetworkError::ConfigurationError(m) ==> m@ == t@,
        err matches NetworkError::ResourceExhaustedError(m) ==> m@ == t@,
        err matches NetworkError::NetworkUnreachableError(m) ==> m@ == t@,
        err matches NetworkError::ServiceDiscoveryError(m) ==> m@ == t@,
        err matches NetworkError::NatTraversalError(m) ==> m@ == t@,
        err matches NetworkError::DataChannelError(m) ==> m@ == t@,
        err matches NetworkError::BroadcastError(m) ==> m@ == t@,
        err matches NetworkError::IceError(m) ==> m@ == t@,
        err matches NetworkError::DtlsError(m) ==> m@ == t@,
        err matches NetworkError::StunTurnError(m) ==> m@ == t@,
        err matches NetworkError::WebSocketError(m) ==> m@ == t@,
        err matches NetworkError::ConnectionNotFound(m) ==> m@ == t@,
        err matches NetworkError::ConnectionClosed(m) ==> m@ == t@,
        err matches NetworkError::NotImplemented(m) ==> m@ == t@,
        err matches NetworkError::ChannelClosed(m) ==> m@ == t@,
        err matches NetworkError::SendError(m) ==> m@ == t@,
        err matches NetworkError::NoRoute(m) ==> m@ == t@,
        err matches NetworkError::InvalidOperation(m) ==> m@ == t@,
        err matches NetworkError::InvalidArgument(m) ==> m@ == t@,
        err matches NetworkError::ChannelNotFound(m) ==> m@ == t@,
{
}

} // verus!
