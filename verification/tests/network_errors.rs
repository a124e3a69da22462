//! Classification and conversion of transport errors.

use actr_hyper::network_error::NetworkError;
use actr_hyper::protocol::{ActrError, ActrIdError, ErrorKind};

// ── NetworkError::kind() classification ──────────────────────────────────

#[test]
fn transient_network_errors() {
    let cases = [
        NetworkError::ConnectionError("x".into()),
        NetworkError::ConnectionClosed("x".into()),
        NetworkError::ChannelClosed("x".into()),
        NetworkError::SendError("x".into()),
        NetworkError::NetworkUnreachableError("x".into()),
        NetworkError::ResourceExhaustedError("x".into()),
        NetworkError::WebSocketError("x".into()),
        NetworkError::SignalingError("x".into()),
        NetworkError::WebRtcError("x".into()),
        NetworkError::NatTraversalError("x".into()),
        NetworkError::IceError("x".into()),
        NetworkError::TimeoutError("x".into()),
    ];
    for e in &cases {
        assert_eq!(e.kind(), ErrorKind::Transient, "{} should be Transient", e.to_text());
        assert!(e.is_retryable(), "{} should be retryable", e.to_text());
    }
}

#[test]
fn client_network_errors() {
    let cases = [
        NetworkError::ConnectionNotFound("x".into()),
        NetworkError::ChannelNotFound("x".into()),
        NetworkError::NoRoute("x".into()),
        NetworkError::InvalidArgument("x".into()),
        NetworkError::InvalidOperation("x".into()),
        NetworkError::ConfigurationError("x".into()),
        NetworkError::ServiceDiscoveryError("x".into()),
        NetworkError::AuthenticationError("x".into()),
        NetworkError::PermissionError("x".into()),
        NetworkError::CredentialExpired("x".into()),
    ];
    for e in &cases {
        assert_eq!(e.kind(), ErrorKind::Client, "{} should be Client", e.to_text());
        assert!(!e.is_retryable(), "{} should not be retryable", e.to_text());
    }
}

#[test]
fn corrupt_network_error() {
    let e = NetworkError::DeserializationError("bad bytes".into());
    assert_eq!(e.kind(), ErrorKind::Corrupt);
    assert!(e.requires_dlq());
    assert!(!e.is_retryable());
}

#[test]
fn internal_network_errors() {
    let cases = [
        NetworkError::ProtocolError("x".into()),
        NetworkError::SerializationError("x".into()),
        NetworkError::DataChannelError("x".into()),
        NetworkError::BroadcastError("x".into()),
        NetworkError::DtlsError("x".into()),
        NetworkError::StunTurnError("x".into()),
        NetworkError::NotImplemented("x".into()),
    ];
    for e in &cases {
        assert_eq!(e.kind(), ErrorKind::Internal, "{} should be Internal", e.to_text());
        assert!(!e.is_retryable());
        assert!(!e.requires_dlq());
    }
}

// ── From<NetworkError> for ActrError (single boundary conversion) ─────────

#[test]
fn transient_network_error_becomes_unavailable() {
    let e: ActrError = NetworkError::ConnectionError("lost".into()).into();
    assert!(matches!(e, ActrError::Unavailable(_)));
    assert!(e.is_retryable());
}

#[test]
fn client_network_error_becomes_not_found() {
    let e: ActrError = NetworkError::NoRoute("dst".into()).into();
    assert!(matches!(e, ActrError::NotFound(_)));
    assert!(!e.is_retryable());
}

#[test]
fn corrupt_network_error_becomes_decode_failure() {
    let e: ActrError = NetworkError::DeserializationError("garbled".into()).into();
    assert!(matches!(e, ActrError::DecodeFailure(_)));
    assert!(e.requires_dlq());
}

#[test]
fn internal_network_error_becomes_internal() {
    let e: ActrError = NetworkError::ProtocolError("bug".into()).into();
    assert!(matches!(e, ActrError::Internal(_)));
    assert!(!e.is_retryable());
    assert!(!e.requires_dlq());
}

// ── category() / severity() surface every variant ───────────────────────

#[test]
fn category_covers_all_variants() {
    // Exhaustive: one representative per category arm, including the merged
    // serialization/deserialization bucket.
    let cases: Vec<(NetworkError, &str)> = vec![
        (NetworkError::ConnectionError("x".into()), "connection"),
        (NetworkError::SignalingError("x".into()), "signaling"),
        (NetworkError::WebRtcError("x".into()), "webrtc"),
        (NetworkError::ProtocolError("x".into()), "protocol"),
        (
            NetworkError::SerializationError("x".into()),
            "serialization",
        ),
        (
            NetworkError::DeserializationError("x".into()),
            "serialization",
        ),
        (NetworkError::TimeoutError("x".into()), "timeout"),
        (
            NetworkError::AuthenticationError("x".into()),
            "authentication",
        ),
        (NetworkError::PermissionError("x".into()), "permission"),
        (
            NetworkError::ConfigurationError("x".into()),
            "configuration",
        ),
        (
            NetworkError::ResourceExhaustedError("x".into()),
            "resource_exhausted",
        ),
        (
            NetworkError::NetworkUnreachableError("x".into()),
            "network_unreachable",
        ),
        (
            NetworkError::ServiceDiscoveryError("x".into()),
            "service_discovery",
        ),
        (NetworkError::NatTraversalError("x".into()), "nat_traversal"),
        (NetworkError::DataChannelError("x".into()), "data_channel"),
        (NetworkError::IceError("x".into()), "ice"),
        (NetworkError::DtlsError("x".into()), "dtls"),
        (NetworkError::StunTurnError("x".into()), "stun_turn"),
        (NetworkError::WebSocketError("x".into()), "websocket"),
        (
            NetworkError::ConnectionNotFound("x".into()),
            "connection_not_found",
        ),
        (
            NetworkError::ConnectionClosed("x".into()),
            "connection_closed",
        ),
        (NetworkError::NotImplemented("x".into()), "not_implemented"),
        (NetworkError::ChannelClosed("x".into()), "channel_closed"),
        (NetworkError::SendError("x".into()), "send_error"),
        (NetworkError::NoRoute("x".into()), "no_route"),
        (
            NetworkError::InvalidOperation("x".into()),
            "invalid_operation",
        ),
        (
            NetworkError::InvalidArgument("x".into()),
            "invalid_argument",
        ),
        (
            NetworkError::ChannelNotFound("x".into()),
            "channel_not_found",
        ),
        (NetworkError::BroadcastError("x".into()), "broadcast"),
        (
            NetworkError::CredentialExpired("x".into()),
            "credential_expired",
        ),
    ];
    for (err, expected) in &cases {
        assert_eq!(err.category(), *expected, "category mismatch for {}", err.to_text());
        // category() must be non-empty for every variant.
        assert!(!err.category().is_empty());
    }
}

#[test]
fn severity_is_within_1_to_10_for_all_variants() {
    // Exercises every severity arm and confirms the documented 1..=10 range.
    let all: Vec<NetworkError> = vec![
        NetworkError::ConnectionError("x".into()),
        NetworkError::SignalingError("x".into()),
        NetworkError::WebRtcError("x".into()),
        NetworkError::ProtocolError("x".into()),
        NetworkError::SerializationError("x".into()),
        NetworkError::DeserializationError("x".into()),
        NetworkError::TimeoutError("x".into()),
        NetworkError::AuthenticationError("x".into()),
        NetworkError::PermissionError("x".into()),
        NetworkError::CredentialExpired("x".into()),
        NetworkError::ConfigurationError("x".into()),
        NetworkError::ResourceExhaustedError("x".into()),
        NetworkError::NetworkUnreachableError("x".into()),
        NetworkError::ServiceDiscoveryError("x".into()),
        NetworkError::NatTraversalError("x".into()),
        NetworkError::DataChannelError("x".into()),
        NetworkError::IceError("x".into()),
        NetworkError::DtlsError("x".into()),
        NetworkError::StunTurnError("x".into()),
        NetworkError::WebSocketError("x".into()),
        NetworkError::ConnectionNotFound("x".into()),
        NetworkError::ConnectionClosed("x".into()),
        NetworkError::NotImplemented("x".into()),
        NetworkError::ChannelClosed("x".into()),
        NetworkError::SendError("x".into()),
        NetworkError::NoRoute("x".into()),
        NetworkError::InvalidOperation("x".into()),
        NetworkError::InvalidArgument("x".into()),
        NetworkError::ChannelNotFound("x".into()),
        NetworkError::BroadcastError("x".into()),
    ];
    for e in &all {
        let s = e.severity();
        assert!((1..=10).contains(&s), "severity {s} out of range for {}", e.to_text());
    }
    // Spot-check a few known tiers.
    assert_eq!(NetworkError::ConfigurationError("x".into()).severity(), 10);
    assert_eq!(NetworkError::Other(anyhow::Error::msg("x")).severity(), 1);
}

// ── From conversions into NetworkError ─────────────────────────────────

#[test]
fn from_io_error_into_network_error() {
    let e: NetworkError = std::io::Error::new(std::io::ErrorKind::UnexpectedEof, "boom").into();
    assert!(matches!(e, NetworkError::IoError(_)));
    assert_eq!(e.category(), "io");
    assert_eq!(e.kind(), ErrorKind::Internal);
}

#[test]
fn from_url_parse_error_into_network_error() {
    let bad = "not a url".parse::<url::Url>().unwrap_err();
    let e: NetworkError = bad.into();
    assert!(matches!(e, NetworkError::UrlParseError(_)));
    assert_eq!(e.category(), "url_parse");
}

#[test]
fn from_json_error_into_network_error() {
    let bad: serde_json::Error =
        serde_json::from_str::<serde_json::Value>("{bad}").unwrap_err();
    let e: NetworkError = bad.into();
    assert!(matches!(e, NetworkError::JsonError(_)));
    assert_eq!(e.category(), "json");
}

#[test]
fn from_anyhow_into_network_error() {
    let e: NetworkError = anyhow::Error::msg("kaboom").into();
    assert!(matches!(e, NetworkError::Other(_)));
    assert_eq!(e.severity(), 1);
    assert_eq!(e.kind(), ErrorKind::Internal);
}

#[test]
fn from_actr_id_error_into_invalid_argument() {
    // An unparseable identity maps to InvalidArgument.
    let id_err = ActrIdError {
        message: "invalid actr id".to_string(),
    };
    let e: NetworkError = id_err.into();
    assert!(matches!(e, NetworkError::InvalidArgument(_)));
    assert_eq!(e.kind(), ErrorKind::Client);
}

#[test]
fn network_error_display_and_to_actr_error_for_other() {
    // The `Other(anyhow)` arm must round-trip through Display and become ActrError::Internal.
    let e = NetworkError::Other(anyhow::Error::msg("boom"));
    let s = e.to_text();
    assert!(s.contains("boom"));
    let ae: ActrError = e.into();
    assert!(matches!(ae, ActrError::Internal(_)));
}

// ── From<NetworkError> for ActrError: kind() fallback arms ──────────────

#[test]
fn client_kind_error_without_precise_mapping_becomes_not_found() {
    // InvalidOperation is Client-kind but not in the precise NotFound map
    // (NoRoute/ConnectionNotFound/ChannelNotFound/ServiceDiscovery), so it
    // falls through to `ErrorKind::Client => ActrError::NotFound`.
    let e: ActrError = NetworkError::InvalidOperation("bad op".into()).into();
    assert!(matches!(e, ActrError::NotFound(_)));
}

#[test]
fn transient_kind_error_without_precise_mapping_becomes_unavailable() {
    // ResourceExhaustedError is Transient-kind but not in the precise map.
    let e: ActrError = NetworkError::ResourceExhaustedError("overload".into()).into();
    assert!(matches!(e, ActrError::Unavailable(_)));
}

#[test]
fn io_error_becomes_internal_via_kind_fallback() {
    // IoError is Internal-kind, not in any precise map → Internal.
    let e: ActrError =
        NetworkError::IoError(std::io::Error::new(std::io::ErrorKind::UnexpectedEof, "io"))
            .into();
    assert!(matches!(e, ActrError::Internal(_)));
}

// ── exact texts and conversions ──────────────────────────────────────────────

#[test]
fn printed_forms_name_the_error_and_its_detail() {
    assert_eq!(
        NetworkError::ConnectionError("lost".into()).to_text(),
        "Connection error: lost"
    );
    assert!(NetworkError::TimeoutError("5s".into()).to_text().ends_with("5s"));
}

#[test]
fn outside_errors_keep_their_text() {
    let io: NetworkError = std::io::Error::new(std::io::ErrorKind::Other, "disk gone").into();
    assert!(io.to_text().contains("disk gone"));
    let ws: NetworkError = tokio_tungstenite::tungstenite::Error::ConnectionClosed.into();
    let shown = tokio_tungstenite::tungstenite::Error::ConnectionClosed.to_string();
    assert!(matches!(&ws, NetworkError::WebSocketError(t) if *t == shown));
    let rtc: NetworkError = webrtc::error::Error::ErrConnectionClosed.into();
    assert!(matches!(rtc, NetworkError::WebRtcError(_)));
    let decode: NetworkError = prost::decode_length_delimiter(&[0xffu8; 11][..])
        .unwrap_err()
        .into();
    assert!(matches!(decode, NetworkError::DeserializationError(_)));
    let mut too_small = [0u8; 1];
    let encode: NetworkError = prost::encode_length_delimiter(300, &mut &mut too_small[..])
        .unwrap_err()
        .into();
    assert!(matches!(encode, NetworkError::SerializationError(_)));
    let any: NetworkError = anyhow::Error::msg("kaboom").into();
    assert!(any.to_text().contains("kaboom"));
}

#[test]
fn precise_mappings_keep_their_meaning() {
    let denied: ActrError = NetworkError::PermissionError("no".into()).into();
    assert!(matches!(denied, ActrError::PermissionDenied(_)));
    let timed_out: ActrError = NetworkError::TimeoutError("5s".into()).into();
    assert_eq!(timed_out.kind(), ErrorKind::Transient);
    let invalid: ActrError = NetworkError::InvalidArgument("x".into()).into();
    assert_eq!(invalid.kind(), ErrorKind::Client);
}

#[test]
fn error_kinds_decide_retry_and_dead_letter() {
    assert!(ErrorKind::Transient.is_retryable());
    assert!(!ErrorKind::Client.is_retryable());
    assert!(ErrorKind::Corrupt.requires_dlq());
    assert!(!ErrorKind::Internal.requires_dlq());
    assert!(ActrError::TimedOut.is_retryable());
    assert!(ActrError::ConnectionNotReady {
        retry_after_ms: Some(5)
    }
    .is_retryable());
    assert!(ActrError::DecodeFailure("x".into()).requires_dlq());
}
