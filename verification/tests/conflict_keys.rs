//! Conflict-key projection and the protobuf field scanner.

use actr_hyper::conflict_key::{
    warn_extract_fallback, ConflictKey, ConflictKeyError, ConflictKeySpec, KeySource,
};
use actr_hyper::protocol::{ActrId, ActrType, Realm};
use actr_hyper::wire::{
    canonical_typed_varint, canonical_varint, read_varint, scan_top_level_field, PayloadFieldKind,
    MAX_CONFLICT_KEY_BYTES,
};
use bytes::Bytes;

fn echo_caller() -> ActrId {
    ActrId {
        realm: Realm { realm_id: 101 },
        serial_number: 0x1a2b3c,
        actr_type: ActrType {
            manufacturer: "acme".to_string(),
            name: "echo-service".to_string(),
            version: "1.0.0".to_string(),
        },
    }
}

/// Encode a protobuf tag (field_number, wire_type).
fn tag(field: u32, wire: u8) -> Vec<u8> {
    encode_varint(u64::from((field << 3) | u32::from(wire)))
}

fn encode_varint(mut v: u64) -> Vec<u8> {
    let mut out = Vec::new();
    loop {
        let mut byte = (v & 0x7f) as u8;
        v >>= 7;
        if v != 0 {
            byte |= 0x80;
        }
        out.push(byte);
        if v == 0 {
            break;
        }
    }
    out
}

/// Build a message with a single varint field.
fn msg_varint(field: u32, value: u64) -> Vec<u8> {
    let mut m = tag(field, 0);
    m.extend(encode_varint(value));
    m
}

/// Build a message with a single length-delimited (string/bytes) field.
fn msg_len_delim(field: u32, value: &[u8]) -> Vec<u8> {
    let mut m = tag(field, 2);
    m.extend(encode_varint(value.len() as u64));
    m.extend_from_slice(value);
    m
}

#[test]
fn scan_varint_field() {
    let payload = msg_varint(1, 300);
    let got = scan_top_level_field(&payload, 1, PayloadFieldKind::Uint64).unwrap();
    // 300 = 0xAC 0x02 as a varint.
    assert_eq!(got, Some(Bytes::from(encode_varint(300))));
}

#[test]
fn scan_overlong_varint_uses_canonical_key() {
    let canonical = msg_varint(1, 1);
    // The same scalar encoded non-canonically as 0x81 0x00.
    let overlong = [tag(1, 0).as_slice(), &[0x81, 0x00]].concat();
    assert_eq!(
        scan_top_level_field(&canonical, 1, PayloadFieldKind::Uint64).unwrap(),
        scan_top_level_field(&overlong, 1, PayloadFieldKind::Uint64).unwrap()
    );
}

#[test]
fn bool_wire_alias_falls_back_to_serial() {
    let spec = ConflictKeySpec::builder()
        .method(
            "flags.Flags.Set",
            KeySource::PayloadField {
                tag: 1,
                kind: PayloadFieldKind::Bool,
            },
        )
        .build()
        .unwrap();

    let canonical_true = spec.extract("flags.Flags.Set", None, &msg_varint(1, 1));
    assert!(matches!(canonical_true, ConflictKey::Scoped { .. }));
    // Protobuf decoders commonly coerce every non-zero varint to `true`. A
    // second scoped key for value 2 would therefore let the same logical bool
    // run concurrently; fail closed instead.
    assert_eq!(
        spec.extract("flags.Flags.Set", None, &msg_varint(1, 2)),
        ConflictKey::Serial
    );
}

#[test]
fn out_of_range_uint32_wire_alias_falls_back_to_serial() {
    let spec = ConflictKeySpec::builder()
        .method(
            "counter.Counter.Update",
            KeySource::PayloadField {
                tag: 1,
                kind: PayloadFieldKind::Uint32,
            },
        )
        .build()
        .unwrap();

    let canonical = spec.extract("counter.Counter.Update", None, &msg_varint(1, 1));
    assert!(matches!(canonical, ConflictKey::Scoped { .. }));
    // Generated decoders may narrow this to the same u32 value `1`; treating
    // the 64-bit wire value as a separate key would violate same-key FIFO.
    assert_eq!(
        spec.extract(
            "counter.Counter.Update",
            None,
            &msg_varint(1, u64::from(u32::MAX) + 2),
        ),
        ConflictKey::Serial
    );
}

#[test]
fn payload_kind_wire_mismatch_falls_back_to_serial() {
    let spec = ConflictKeySpec::builder()
        .method(
            "chat.Chat.Send",
            KeySource::PayloadField {
                tag: 1,
                kind: PayloadFieldKind::Uint64,
            },
        )
        .build()
        .unwrap();
    assert_eq!(
        spec.extract("chat.Chat.Send", None, &msg_len_delim(1, b"1")),
        ConflictKey::Serial
    );
}

#[test]
fn invalid_utf8_string_falls_back_to_serial() {
    let spec = ConflictKeySpec::builder()
        .method(
            "chat.Chat.Send",
            KeySource::PayloadField {
                tag: 1,
                kind: PayloadFieldKind::String,
            },
        )
        .build()
        .unwrap();
    assert_eq!(
        spec.extract("chat.Chat.Send", None, &msg_len_delim(1, &[0xff])),
        ConflictKey::Serial
    );
}

#[test]
fn scan_varint_overflow_is_error() {
    let payload = [
        0x08, 0xFF, 0xFF, 0xFF, 0xFF, 0xFF, 0xFF, 0xFF, 0xFF, 0xFF, 0x02,
    ];
    assert!(scan_top_level_field(&payload, 1, PayloadFieldKind::Uint64).is_err());
}

#[test]
fn scan_rejects_zero_and_oversized_field_numbers() {
    assert!(scan_top_level_field(&[0x00, 0x01], 1, PayloadFieldKind::Uint64).is_err());

    // Field number 2^29 is one beyond protobuf's maximum. Its key is
    // (2^29 << 3) | varint, encoded minimally as 0x80 0x80 0x80 0x80 0x10.
    let oversized_tag = [0x80, 0x80, 0x80, 0x80, 0x10, 0x01];
    assert!(scan_top_level_field(&oversized_tag, 1, PayloadFieldKind::Uint64).is_err());
}

#[test]
fn scan_string_field_returns_content() {
    let payload = msg_len_delim(2, b"room-42");
    let got = scan_top_level_field(&payload, 2, PayloadFieldKind::String).unwrap();
    assert_eq!(got, Some(Bytes::from_static(b"room-42")));
}

#[test]
fn oversized_length_delimited_key_falls_back_to_serial() {
    let spec = ConflictKeySpec::builder()
        .method(
            "chat.Chat.Send",
            KeySource::PayloadField {
                tag: 1,
                kind: PayloadFieldKind::Bytes,
            },
        )
        .build()
        .unwrap();
    let payload = msg_len_delim(1, &vec![b'x'; 4 * 1024 + 1]);
    assert_eq!(
        spec.extract("chat.Chat.Send", None, &payload),
        ConflictKey::Serial
    );
}

#[test]
fn scan_fixed64_field() {
    let mut payload = tag(3, 1);
    payload.extend_from_slice(&7u64.to_le_bytes());
    let got = scan_top_level_field(&payload, 3, PayloadFieldKind::Fixed64).unwrap();
    assert_eq!(got, Some(Bytes::copy_from_slice(&7u64.to_le_bytes())));
}

#[test]
fn scan_fixed32_field() {
    let mut payload = tag(4, 5);
    payload.extend_from_slice(&9u32.to_le_bytes());
    let got = scan_top_level_field(&payload, 4, PayloadFieldKind::Fixed32).unwrap();
    assert_eq!(got, Some(Bytes::copy_from_slice(&9u32.to_le_bytes())));
}

#[test]
fn scan_skips_other_fields() {
    // field 1 varint, field 2 string — target field 2.
    let mut payload = msg_varint(1, 99);
    payload.extend(msg_len_delim(2, b"doc-1"));
    let got = scan_top_level_field(&payload, 2, PayloadFieldKind::String).unwrap();
    assert_eq!(got, Some(Bytes::from_static(b"doc-1")));
}

#[test]
fn scan_missing_field_is_none() {
    let payload = msg_varint(1, 5);
    assert_eq!(
        scan_top_level_field(&payload, 7, PayloadFieldKind::Bytes).unwrap(),
        None
    );
}

#[test]
fn scan_repeated_field_falls_back_to_none() {
    let mut payload = msg_len_delim(1, b"a");
    payload.extend(msg_len_delim(1, b"b"));
    // repeated target field → ambiguous → None (safe: serial fallback).
    assert_eq!(
        scan_top_level_field(&payload, 1, PayloadFieldKind::Bytes).unwrap(),
        None
    );
}

#[test]
fn scan_group_wire_type_is_error() {
    // wire type 3 = group start (unsupported).
    let payload = tag(1, 3);
    assert!(scan_top_level_field(&payload, 1, PayloadFieldKind::Bytes).is_err());
}

#[test]
fn scan_truncated_length_delimited_is_error() {
    let mut payload = tag(2, 2);
    payload.extend(encode_varint(10)); // claims 10 bytes
    payload.extend_from_slice(b"short"); // only 5
    assert!(scan_top_level_field(&payload, 2, PayloadFieldKind::Bytes).is_err());
}

/// A length prefix near `u64::MAX` is an error, not a panic.
#[test]
fn scan_oversized_length_prefix_is_error_not_panic() {
    // field 1, wire 2, followed by a 10-byte varint declaring ≈ u64::MAX bytes.
    let payload = [
        0x0A, 0xFF, 0xFF, 0xFF, 0xFF, 0xFF, 0xFF, 0xFF, 0xFF, 0xFF, 0x01,
    ];
    assert!(scan_top_level_field(&payload, 1, PayloadFieldKind::Bytes).is_err());
}

/// A length prefix that is merely far larger than the remaining bytes (not
/// near the integer boundary) must also error out rather than slice OOB.
#[test]
fn scan_length_prefix_exceeding_remaining_is_error() {
    let mut payload = tag(1, 2);
    payload.extend(encode_varint(1_000_000)); // claims 1M bytes
    payload.extend_from_slice(b"tiny"); // provides 4
    assert!(scan_top_level_field(&payload, 1, PayloadFieldKind::Bytes).is_err());
}

/// A malformed (never-terminating / over-long) varint length prefix must also
/// fall back to `Err` rather than panic.
#[test]
fn scan_malformed_varint_length_prefix_is_error() {
    let mut payload = tag(1, 2);
    // 10 continuation bytes with no terminator overruns the buffer → Err.
    payload.extend_from_slice(&[0xFF; 10]);
    assert!(scan_top_level_field(&payload, 1, PayloadFieldKind::Bytes).is_err());
}

/// The same payload projects to `Serial` through `extract`.
#[test]
fn oversized_length_prefix_extracts_to_serial_not_panic() {
    let spec = ConflictKeySpec::builder()
        .method(
            "chat.Chat.Send",
            KeySource::PayloadField {
                tag: 1,
                kind: PayloadFieldKind::Bytes,
            },
        )
        .build()
        .unwrap();
    let payload = [
        0x0A, 0xFF, 0xFF, 0xFF, 0xFF, 0xFF, 0xFF, 0xFF, 0xFF, 0xFF, 0x01,
    ];
    assert_eq!(
        spec.extract("chat.Chat.Send", None, &payload),
        ConflictKey::Serial
    );
}

// ── spec / extract ───────────────────────────────────────────────────────────

#[test]
fn undeclared_method_is_serial() {
    let spec = ConflictKeySpec::builder()
        .method(
            "chat.Chat.Send",
            KeySource::PayloadField {
                tag: 1,
                kind: PayloadFieldKind::Bytes,
            },
        )
        .build()
        .unwrap();
    let payload = msg_len_delim(1, b"room");
    let key = spec.extract("other.Svc.Method", None, &payload);
    assert_eq!(key, ConflictKey::Serial);
}

#[test]
fn payload_field_projects_scoped_key() {
    let spec = ConflictKeySpec::builder()
        .method(
            "chat.Chat.Send",
            KeySource::PayloadField {
                tag: 1,
                kind: PayloadFieldKind::Bytes,
            },
        )
        .build()
        .unwrap();
    let payload = msg_len_delim(1, b"room-7");
    let key = spec.extract("chat.Chat.Send", None, &payload);
    match key {
        ConflictKey::Scoped { domain, value } => {
            assert_eq!(&*domain, "chat.Chat.Send");
            assert_eq!(value, Bytes::from_static(b"room-7"));
        }
        ConflictKey::Serial => panic!("expected scoped key"),
    }
}

#[test]
fn extraction_failure_falls_back_to_serial() {
    let spec = ConflictKeySpec::builder()
        .method(
            "chat.Chat.Send",
            KeySource::PayloadField {
                tag: 9,
                kind: PayloadFieldKind::Bytes,
            },
        )
        .build()
        .unwrap();
    let payload = msg_len_delim(1, b"room");
    // field 9 absent → serial fallback.
    assert_eq!(
        spec.extract("chat.Chat.Send", None, &payload),
        ConflictKey::Serial
    );
}

#[test]
fn same_domain_distinct_methods_share_conflict_space() {
    let spec = ConflictKeySpec::builder()
        .method_in_domain(
            "doc.Docs.Update",
            "doc",
            KeySource::PayloadField {
                tag: 2,
                kind: PayloadFieldKind::Bytes,
            },
        )
        .method_in_domain(
            "doc.Docs.Delete",
            "doc",
            KeySource::PayloadField {
                tag: 2,
                kind: PayloadFieldKind::Bytes,
            },
        )
        .build()
        .unwrap();
    let payload = msg_len_delim(2, b"doc-1");
    let a = spec.extract("doc.Docs.Update", None, &payload);
    let b = spec.extract("doc.Docs.Delete", None, &payload);
    assert_eq!(
        a, b,
        "same domain + same value across methods must be equal keys"
    );
}

#[test]
fn default_domain_is_method_private() {
    let spec = ConflictKeySpec::builder()
        .method(
            "a.S.M1",
            KeySource::PayloadField {
                tag: 1,
                kind: PayloadFieldKind::Bytes,
            },
        )
        .method(
            "a.S.M2",
            KeySource::PayloadField {
                tag: 1,
                kind: PayloadFieldKind::Bytes,
            },
        )
        .build()
        .unwrap();
    let payload = msg_len_delim(1, b"same-value");
    let a = spec.extract("a.S.M1", None, &payload);
    let b = spec.extract("a.S.M2", None, &payload);
    assert_ne!(
        a, b,
        "default (method-private) domains must not collide across methods"
    );
}

#[test]
fn sender_source_uses_caller_id() {
    let spec = ConflictKeySpec::builder()
        .method("p.P.Ping", KeySource::Sender)
        .build()
        .unwrap();
    let caller = echo_caller();
    assert_eq!(caller.to_string_repr(), "1a2b3c@101/acme:echo-service:1.0.0");
    let with = spec.extract("p.P.Ping", Some(&caller), &[]);
    let without = spec.extract("p.P.Ping", None, &[]);
    match (&with, &without) {
        (ConflictKey::Scoped { value: v1, .. }, ConflictKey::Scoped { value: v2, .. }) => {
            assert!(!v1.is_empty());
            assert!(
                v2.is_empty(),
                "missing caller projects to a fixed empty in-domain value"
            );
        }
        _ => panic!("sender source must always project scoped within domain"),
    }
    assert_ne!(with, without);
}

#[test]
fn duplicate_route_registration_is_error() {
    let err = ConflictKeySpec::builder()
        .method("dup.S.M", KeySource::Sender)
        .method(
            "dup.S.M",
            KeySource::PayloadField {
                tag: 1,
                kind: PayloadFieldKind::Bytes,
            },
        )
        .build()
        .unwrap_err();
    assert_eq!(err, ConflictKeyError::DuplicateRoute("dup.S.M".to_string()));
}

// ── laws on concrete values ──────────────────────────────────────────────────

#[test]
fn varints_round_trip() {
    for value in [0u64, 1, 127, 128, 300, u32::MAX as u64, u64::MAX] {
        let encoded = canonical_varint(value);
        assert_eq!(encoded.as_ref(), encode_varint(value).as_slice());
        assert_eq!(read_varint(&encoded, 0), Ok((value, encoded.len())));
    }
}

#[test]
fn varint_reads_start_at_the_offset() {
    assert_eq!(read_varint(&[0xff, 0xac, 0x02, 0x09], 1), Ok((300, 2)));
    assert!(read_varint(&[0x80], 0).is_err());
    assert!(read_varint(&[], 0).is_err());
}

#[test]
fn typed_varints_are_checked_against_their_kind() {
    assert_eq!(
        canonical_typed_varint(1, PayloadFieldKind::Bool).unwrap().as_ref(),
        &[1u8][..]
    );
    assert!(canonical_typed_varint(2, PayloadFieldKind::Bool).is_err());
    assert!(canonical_typed_varint(u32::MAX as u64 + 1, PayloadFieldKind::Uint32).is_err());
    assert!(canonical_typed_varint(1, PayloadFieldKind::Bytes).is_err());
}

#[test]
fn signed_kinds_accept_both_encodings_of_their_range() {
    // An int32 of -1 travels as a ten-byte varint.
    let minus_one = u64::MAX;
    assert!(canonical_typed_varint(minus_one, PayloadFieldKind::Int32).is_ok());
    assert!(canonical_typed_varint(1u64 << 40, PayloadFieldKind::Int32).is_err());
    assert!(canonical_typed_varint(1u64 << 40, PayloadFieldKind::Int64).is_ok());
}

#[test]
fn longest_key_is_projected_and_a_longer_one_is_not() {
    let spec = ConflictKeySpec::builder()
        .method(
            "chat.Chat.Send",
            KeySource::PayloadField {
                tag: 1,
                kind: PayloadFieldKind::Bytes,
            },
        )
        .build()
        .unwrap();
    let longest = vec![b'x'; MAX_CONFLICT_KEY_BYTES];
    match spec.extract("chat.Chat.Send", None, &msg_len_delim(1, &longest)) {
        ConflictKey::Scoped { value, .. } => assert_eq!(value.len(), MAX_CONFLICT_KEY_BYTES),
        ConflictKey::Serial => panic!("the longest key is still a key"),
    }
    let too_long = vec![b'x'; MAX_CONFLICT_KEY_BYTES + 1];
    assert!(spec
        .extract("chat.Chat.Send", None, &msg_len_delim(1, &too_long))
        .is_serial());
}

#[test]
fn keyless_table_is_always_serial() {
    let spec = ConflictKeySpec::builder().build().unwrap();
    assert!(spec.is_empty());
    assert!(ConflictKeySpec::default().is_empty());
    let caller = echo_caller();
    assert_eq!(
        spec.extract("any.Svc.Method", Some(&caller), &msg_varint(1, 1)),
        ConflictKey::Serial
    );
}

#[test]
fn sender_key_is_the_caller_identity_in_its_domain() {
    let spec = ConflictKeySpec::builder()
        .method_in_domain("p.P.Ping", "peers", KeySource::Sender)
        .build()
        .unwrap();
    assert!(!spec.is_empty());
    let caller = echo_caller();
    match spec.extract("p.P.Ping", Some(&caller), b"ignored") {
        ConflictKey::Scoped { domain, value } => {
            assert_eq!(domain, "peers");
            assert_eq!(value.as_ref(), b"1a2b3c@101/acme:echo-service:1.0.0");
        }
        ConflictKey::Serial => panic!("sender keys are always scoped"),
    }
}

#[test]
fn equal_keys_are_the_same_key() {
    let spec = ConflictKeySpec::builder()
        .method(
            "a.S.M",
            KeySource::PayloadField {
                tag: 1,
                kind: PayloadFieldKind::String,
            },
        )
        .build()
        .unwrap();
    let a = spec.extract("a.S.M", None, &msg_len_delim(1, b"k"));
    let b = a.duplicate();
    let c = spec.extract("a.S.M", None, &msg_len_delim(1, b"other"));
    assert!(a.same_key(&b));
    assert!(!a.same_key(&c));
    assert!(!a.same_key(&ConflictKey::Serial));
    assert!(ConflictKey::Serial.same_key(&ConflictKey::Serial));
}

#[test]
fn duplicate_route_error_names_the_route() {
    let err = ConflictKeyError::DuplicateRoute("dup.S.M".to_string());
    assert!(err.to_text().contains("dup.S.M"));
}

#[test]
fn fallbacks_are_reported_for_declared_fields_only() {
    let spec = ConflictKeySpec::builder()
        .method(
            "field",
            KeySource::PayloadField {
                tag: 3,
                kind: PayloadFieldKind::Uint64,
            },
        )
        .method("sender", KeySource::Sender)
        .build()
        .unwrap();
    let missing = spec.extract("field", None, &[]);
    assert_eq!(
        spec.extract_fallback("field", &missing),
        Some((3, PayloadFieldKind::Uint64))
    );
    let found = spec.extract("field", None, &[0x18, 1]);
    assert_eq!(spec.extract_fallback("field", &found), None);
    let sender = spec.extract("sender", None, &[]);
    assert_eq!(spec.extract_fallback("sender", &sender), None);
    let undeclared = spec.extract("other", None, &[]);
    assert_eq!(spec.extract_fallback("other", &undeclared), None);
}

#[test]
fn fallback_warnings_are_a_second_apart() {
    let mut last = 0;
    assert!(!warn_extract_fallback(&mut last, 999));
    assert!(warn_extract_fallback(&mut last, 1_000));
    assert!(!warn_extract_fallback(&mut last, 1_999));
    assert_eq!(last, 1_000);
    assert!(warn_extract_fallback(&mut last, 2_000));
    // Time never runs backwards far enough to warn.
    assert!(!warn_extract_fallback(&mut last, 10));
}

#[test]
fn overlong_messages_share_a_key_beside_other_fields() {
    let spec = ConflictKeySpec::builder()
        .method(
            "m",
            KeySource::PayloadField {
                tag: 1,
                kind: PayloadFieldKind::Uint64,
            },
        )
        .build()
        .unwrap();
    // Field 2 is a string, field 1 the number 5; every number is overlong in
    // the second message.
    let plain = [0x12, 0x01, b'x', 0x08, 0x05];
    let overlong = [0x92, 0x00, 0x81, 0x00, b'x', 0x88, 0x00, 0x85, 0x80, 0x00];
    assert!(spec
        .extract("m", None, &plain)
        .same_key(&spec.extract("m", None, &overlong)));
}

#[test]
fn keys_follow_the_declared_field_alone() {
    let spec = ConflictKeySpec::builder()
        .method(
            "m",
            KeySource::PayloadField {
                tag: 1,
                kind: PayloadFieldKind::Uint64,
            },
        )
        .build()
        .unwrap();
    let key = |payload: &[u8]| spec.extract("m", None, payload);
    let five = key(&[0x08, 0x05]);
    // Other fields, before or after, do not matter.
    assert!(five.same_key(&key(&[0x10, 0x09, 0x08, 0x05])));
    assert!(five.same_key(&key(&[0x08, 0x05, 0x12, 0x01, b'y'])));
    assert!(!five.same_key(&key(&[0x08, 0x06])));
    // Without exactly one valid occurrence the request is a barrier.
    assert!(key(&[0x10, 0x05]).is_serial());
    assert!(key(&[0x08, 0x05, 0x08, 0x05]).is_serial());
    assert!(key(&[0x0a, 0x01, b'x']).is_serial());
}
